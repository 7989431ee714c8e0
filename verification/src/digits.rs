//! Verified numeric helpers: decimal parsing of captured digit runs,
//! base-36 rendering for the legacy hi-res URL guess, and hex encoding.
use vstd::prelude::*;

use crate::text;

verus! {

/// Value of a string of decimal digits (most significant first).
pub open spec fn dec_val(s: Seq<char>) -> nat
    decreases s.len(),
{
    if s.len() == 0 {
        0
    } else {
        dec_val(s.drop_last()) * 10 + ((s.last() as int - '0' as int) as nat)
    }
}

/// Longer digit prefixes never denote smaller values.
proof fn lemma_dec_val_mono(s: Seq<char>, j: int, k: int)
    requires
        0 <= j <= k <= s.len(),
        forall|i: int| 0 <= i < s.len() ==> text::is_digit(s[i]),
    ensures
        dec_val(s.take(j)) <= dec_val(s.take(k)),
    decreases k - j,
{
    if j < k {
        lemma_dec_val_mono(s, j, k - 1);
        let t = s.take(k);
        assert(t.drop_last() =~= s.take(k - 1));
        assert(dec_val(s.take(k)) == dec_val(s.take(k - 1)) * 10 + (t.last() as nat
            - '0' as nat));
        assert(dec_val(s.take(k - 1)) * 10 >= dec_val(s.take(k - 1)));
    }
}

/// Largest decimal value the legacy numeric-id parser accepts.
pub open spec fn dec_limit() -> nat {
    0x7fff_ffff_ffff_ffff as nat
}

/// Parses the digits `from..from+n` of `s` as a decimal number, refusing
/// values beyond the signed 64-bit range the legacy-id flow works in.
pub fn dec_parse(s: &str, from: usize, n: usize) -> (r: Option<u64>)
    requires
        from + n <= s@.len(),
        forall|i: int| 0 <= i < n ==> text::is_digit(s@.skip(from as int)[i]),
    ensures
        match r {
            Some(v) => v == dec_val(s@.subrange(from as int, from + n)) && v as nat
                <= dec_limit(),
            None => dec_val(s@.subrange(from as int, from + n)) > dec_limit(),
        },
{
    let len = s.unicode_len();
    let ghost digits = s@.subrange(from as int, from + n);
    proof {
        assert forall|i: int| 0 <= i < n implies text::is_digit(digits[i]) by {
            assert(s@.skip(from as int)[i] == digits[i]);
        }
    }
    let mut acc: u64 = 0;
    let mut i: usize = 0;
    while i < n
        invariant
            0 <= i <= n,
            from + n <= len,
            len == s@.len(),
            digits == s@.subrange(from as int, from + n),
            digits.len() == n,
            forall|t: int| 0 <= t < n ==> text::is_digit(digits[t]),
            acc as nat == dec_val(digits.take(i as int)),
            acc as nat <= dec_limit(),
        decreases n - i,
    {
        let c = s.get_char(from + i);
        proof {
            assert(digits[i as int] == s@[from + i]);
        }
        let d: u64 = (c as u64) - ('0' as u64);
        if acc > 922337203685477580 || (acc == 922337203685477580 && d > 7) {
            proof {
                assert(digits.take(i as int + 1).drop_last() =~= digits.take(i as int));
                assert(digits.take(i as int + 1).last() == digits[i as int]);
                assert(dec_val(digits.take(i as int + 1)) > dec_limit());
                lemma_dec_val_mono(digits, i as int + 1, n as int);
                assert(digits.take(n as int) =~= digits);
            }
            return None;
        }
        proof {
            assert(digits.take(i as int + 1).drop_last() =~= digits.take(i as int));
            assert(digits.take(i as int + 1).last() == digits[i as int]);
        }
        acc = acc * 10 + d;
        i = i + 1;
    }
    proof {
        assert(digits.take(n as int) =~= digits);
    }
    Some(acc)
}

// ---------------------------------------------------------------------------
// Base 36
// ---------------------------------------------------------------------------

/// The digit alphabet shared by base-36 and hexadecimal rendering.
pub open spec fn digit36(d: int) -> char {
    "0123456789abcdefghijklmnopqrstuvwxyz"@[d]
}

/// Lower-case base-36 representation of `n`, most significant digit first.
pub open spec fn base36(n: nat) -> Seq<char>
    decreases n,
{
    if n < 36 {
        seq![digit36(n as int)]
    } else {
        base36(n / 36) + seq![digit36((n % 36) as int)]
    }
}

/// Looks one digit up in the shared alphabet.
fn digit36_exec(d: u64) -> (c: char)
    requires
        d < 36,
    ensures
        c == digit36(d as int),
{
    let table = "0123456789abcdefghijklmnopqrstuvwxyz";
    proof {
        reveal_strlit("0123456789abcdefghijklmnopqrstuvwxyz");
    }
    table.get_char(d as usize)
}

/// Renders `n` in lower-case base 36, as the legacy hi-res URL guess wants.
pub fn base36_str(n: u64) -> (r: String)
    ensures
        r@ == base36(n as nat),
    decreases n,
{
    if n < 36 {
        let mut s = String::new();
        push_char_seq(&mut s, digit36_exec(n));
        s
    } else {
        let mut s = base36_str(n / 36);
        push_char_seq(&mut s, digit36_exec(n % 36));
        s
    }
}

/// Pushes a character; small wrapper so the `ensures` speaks in `Seq` terms.
fn push_char_seq(s: &mut String, c: char)
    ensures
        final (s)@ == old(s)@ + seq![c],
{
    text::push_char(s, c);
    proof {
        assert(old(s)@.push(c) =~= old(s)@ + seq![c]);
    }
}

// ---------------------------------------------------------------------------
// Hexadecimal
// ---------------------------------------------------------------------------

/// Two lower-case hex digits for one byte.
pub open spec fn hex2(b: u8) -> Seq<char> {
    seq![digit36(b as int / 16), digit36(b as int % 16)]
}

/// Lower-case hex encoding of a byte string.
pub open spec fn hex_of(bs: Seq<u8>) -> Seq<char>
    decreases bs.len(),
{
    if bs.len() == 0 {
        Seq::empty()
    } else {
        hex_of(bs.drop_last()) + hex2(bs.last())
    }
}

/// Hex-encodes a byte vector, lower-case, two digits per byte.
pub fn hex_str(bs: &Vec<u8>) -> (r: String)
    ensures
        r@ == hex_of(bs@),
{
    let mut out = String::new();
    let mut i: usize = 0;
    while i < bs.len()
        invariant
            0 <= i <= bs@.len(),
            out@ == hex_of(bs@.take(i as int)),
        decreases bs@.len() - i,
    {
        let b = bs[i];
        push_char_seq(&mut out, digit36_exec((b / 16) as u64));
        push_char_seq(&mut out, digit36_exec((b % 16) as u64));
        proof {
            assert(bs@.take(i as int + 1).drop_last() =~= bs@.take(i as int));
            assert(bs@.take(i as int + 1).last() == bs@[i as int]);
            assert(out@ =~= hex_of(bs@.take(i as int + 1)));
        }
        i = i + 1;
    }
    proof {
        assert(bs@.take(bs@.len() as int) =~= bs@);
    }
    out
}

} // verus!
