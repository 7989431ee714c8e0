//! Character classes and verified string scanning: the primitives every URL
//! and page-body matcher in this crate is built from.
use vstd::prelude::*;

verus! {

// ---------------------------------------------------------------------------
// Character classes
// ---------------------------------------------------------------------------

pub open spec fn is_digit(c: char) -> bool {
    '0' <= c && c <= '9'
}

pub open spec fn is_lower(c: char) -> bool {
    'a' <= c && c <= 'z'
}

pub open spec fn is_upper(c: char) -> bool {
    'A' <= c && c <= 'Z'
}

/// Word characters: letters, digits and underscore.
pub open spec fn is_word_char(c: char) -> bool {
    is_digit(c) || is_lower(c) || is_upper(c) || c == '_'
}

/// Lower-case hexadecimal digit.
pub open spec fn is_hex_lower(c: char) -> bool {
    is_digit(c) || ('a' <= c && c <= 'f')
}

/// The classes of characters the scanners recognise runs of.
#[derive(Clone, Copy)]
pub enum CharKind {
    /// `0`-`9`
    Digit,
    /// letters, digits, `_`
    Word,
    /// `0`-`9`, `a`-`f`
    HexLower,
    /// `0`-`9`, `a`-`f`, `-`
    HexLowerDash,
    /// `0`-`9`, `a`-`z`
    AlnumLower,
    /// `0`-`9`, `a`-`z`, `-`, `.`
    AlnumLowerDashDot,
    /// `0`-`9`, `a`-`z`, `-`
    AlnumLowerDash,
    /// `0`-`9`, `a`-`z`, `_`, `,`
    AlnumLowerUnderComma,
    /// `0`-`9`, `a`-`z`, `_`, `-`
    AlnumLowerUnderDash,
    /// `a`-`z`
    LowerAlpha,
    /// `a`-`z`, `0`-`6`, `_`, `-`
    LowerSixUnderDash,
    /// anything but `"`
    NotQuote,
    /// anything but `/`
    NotSlash,
    /// anything but `/` or `?`
    NotSlashQuery,
    /// anything but `,`
    NotComma,
    /// the `@` sign
    AtSign,
}

/// The predicate a [`CharKind`] stands for.
pub open spec fn kind_pred(k: CharKind) -> spec_fn(char) -> bool {
    match k {
        CharKind::Digit => |c: char| is_digit(c),
        CharKind::Word => |c: char| is_word_char(c),
        CharKind::HexLower => |c: char| is_hex_lower(c),
        CharKind::HexLowerDash => |c: char| is_hex_lower(c) || c == '-',
        CharKind::AlnumLower => |c: char| is_digit(c) || is_lower(c),
        CharKind::AlnumLowerDashDot => |c: char| is_digit(c) || is_lower(c) || c == '-' || c
            == '.',
        CharKind::AlnumLowerDash => |c: char| is_digit(c) || is_lower(c) || c == '-',
        CharKind::AlnumLowerUnderComma => |c: char| is_digit(c) || is_lower(c) || c == '_' || c
            == ',',
        CharKind::AlnumLowerUnderDash => |c: char| is_digit(c) || is_lower(c) || c == '_' || c
            == '-',
        CharKind::LowerAlpha => |c: char| is_lower(c),
        CharKind::LowerSixUnderDash => |c: char| is_lower(c) || ('0' <= c && c <= '6') || c == '_'
            || c == '-',
        CharKind::NotQuote => |c: char| c != '"',
        CharKind::NotSlash => |c: char| c != '/',
        CharKind::NotSlashQuery => |c: char| c != '/' && c != '?',
        CharKind::NotComma => |c: char| c != ',',
        CharKind::AtSign => |c: char| c == '@',
    }
}

/// Decides membership of `c` in the class `k`.
pub fn char_in(c: char, k: CharKind) -> (r: bool)
    ensures
        r == kind_pred(k)(c),
{
    match k {
        CharKind::Digit => '0' <= c && c <= '9',
        CharKind::Word => ('0' <= c && c <= '9') || ('a' <= c && c <= 'z') || ('A' <= c && c
            <= 'Z') || c == '_',
        CharKind::HexLower => ('0' <= c && c <= '9') || ('a' <= c && c <= 'f'),
        CharKind::HexLowerDash => ('0' <= c && c <= '9') || ('a' <= c && c <= 'f') || c == '-',
        CharKind::AlnumLower => ('0' <= c && c <= '9') || ('a' <= c && c <= 'z'),
        CharKind::AlnumLowerDashDot => ('0' <= c && c <= '9') || ('a' <= c && c <= 'z') || c == '-'
            || c == '.',
        CharKind::AlnumLowerDash => ('0' <= c && c <= '9') || ('a' <= c && c <= 'z') || c == '-',
        CharKind::AlnumLowerUnderComma => ('0' <= c && c <= '9') || ('a' <= c && c <= 'z') || c
            == '_' || c == ',',
        CharKind::AlnumLowerUnderDash => ('0' <= c && c <= '9') || ('a' <= c && c <= 'z') || c
            == '_' || c == '-',
        CharKind::LowerAlpha => 'a' <= c && c <= 'z',
        CharKind::LowerSixUnderDash => ('a' <= c && c <= 'z') || ('0' <= c && c <= '6') || c == '_'
            || c == '-',
        CharKind::NotQuote => c != '"',
        CharKind::NotSlash => c != '/',
        CharKind::NotSlashQuery => c != '/' && c != '?',
        CharKind::NotComma => c != ',',
        CharKind::AtSign => c == '@',
    }
}

// ---------------------------------------------------------------------------
// Runs of characters
// ---------------------------------------------------------------------------

/// Length of the longest prefix of `s` whose characters all satisfy `f`.
pub open spec fn prefix_len(s: Seq<char>, f: spec_fn(char) -> bool) -> int
    decreases s.len(),
{
    if s.len() == 0 || !f(s[0]) {
        0
    } else {
        1 + prefix_len(s.skip(1), f)
    }
}

pub proof fn lemma_prefix_len_props(s: Seq<char>, f: spec_fn(char) -> bool)
    ensures
        0 <= prefix_len(s, f) <= s.len(),
        forall|j: int| 0 <= j < prefix_len(s, f) ==> f(s[j]),
        prefix_len(s, f) < s.len() ==> !f(s[prefix_len(s, f)]),
    decreases s.len(),
{
    if s.len() == 0 || !f(s[0]) {
    } else {
        lemma_prefix_len_props(s.skip(1), f);
        assert forall|j: int| 0 <= j < prefix_len(s, f) implies f(s[j]) by {
            if j > 0 {
                assert(f(s.skip(1)[j - 1]));
            }
        }
        if prefix_len(s, f) < s.len() {
            assert(!f(s.skip(1)[prefix_len(s, f) - 1]));
        }
    }
}

/// `prefix_len` is the unique cut point: everything before satisfies `f`,
/// the character at it (if any) does not.
pub proof fn lemma_prefix_len_is(s: Seq<char>, f: spec_fn(char) -> bool, i: int)
    requires
        0 <= i <= s.len(),
        forall|j: int| 0 <= j < i ==> f(s[j]),
        i < s.len() ==> !f(s[i]),
    ensures
        prefix_len(s, f) == i,
    decreases s.len(),
{
    if i == 0 {
    } else {
        assert(f(s[0]));
        assert forall|j: int| 0 <= j < i - 1 implies f(s.skip(1)[j]) by {
            assert(s.skip(1)[j] == s[j + 1]);
        }
        assert(i - 1 < s.skip(1).len() ==> !f(s.skip(1)[i - 1])) by {
            if i < s.len() {
                assert(s.skip(1)[i - 1] == s[i]);
            }
        }
        lemma_prefix_len_is(s.skip(1), f, i - 1);
    }
}

/// Counts how many consecutive characters of `s`, starting at `from`,
/// belong to the class `k`.
pub fn run_len(s: &str, from: usize, k: CharKind) -> (n: usize)
    requires
        from <= s@.len(),
    ensures
        n == prefix_len(s@.skip(from as int), kind_pred(k)),
        from + n <= s@.len(),
{
    let len = s.unicode_len();
    let mut i = from;
    while i < len && char_in(s.get_char(i), k)
        invariant
            from <= i <= len,
            len == s@.len(),
            forall|j: int| from <= j < i ==> kind_pred(k)(s@[j]),
        decreases len - i,
    {
        i = i + 1;
    }
    proof {
        let rest = s@.skip(from as int);
        assert forall|j: int| 0 <= j < i - from implies kind_pred(k)(rest[j]) by {
            assert(rest[j] == s@[from + j]);
        }
        if i < len {
            assert(rest[i - from] == s@[i as int]);
        }
        lemma_prefix_len_is(rest, kind_pred(k), i - from);
    }
    i - from
}

// ---------------------------------------------------------------------------
// Prefix tests
// ---------------------------------------------------------------------------

/// `p` occurs in `s` at position `i`.
pub open spec fn lit_at(s: Seq<char>, i: int, p: Seq<char>) -> bool {
    0 <= i && i + p.len() <= s.len() && s.subrange(i, i + p.len()) == p
}

/// Tests whether `p` occurs in `s` at position `from`.
pub fn starts_with_at(s: &str, from: usize, p: &str) -> (r: bool)
    requires
        from <= s@.len(),
    ensures
        r == lit_at(s@, from as int, p@),
{
    let len = s.unicode_len();
    let n = p.unicode_len();
    if n > len - from {
        return false;
    }
    let mut j: usize = 0;
    while j < n
        invariant
            0 <= j <= n,
            n == p@.len(),
            len == s@.len(),
            from + n <= len,
            forall|t: int| 0 <= t < j ==> p@[t] == s@[from + t],
        decreases n - j,
    {
        if s.get_char(from + j) != p.get_char(j) {
            proof {
                if lit_at(s@, from as int, p@) {
                    assert(s@.subrange(from as int, from + p@.len())[j as int] == s@[from + j]);
                }
            }
            return false;
        }
        j = j + 1;
    }
    proof {
        assert(s@.subrange(from as int, from + p@.len()) =~= p@);
    }
    true
}

/// The remainder of `s` after a literal prefix `p`, if `p` is there.
pub open spec fn strip_lit(s: Seq<char>, p: Seq<char>) -> Option<Seq<char>> {
    if p.is_prefix_of(s) {
        Some(s.skip(p.len() as int))
    } else {
        None
    }
}

/// The remainder of `s` after `https://` or `http://`.
pub open spec fn strip_scheme(s: Seq<char>) -> Option<Seq<char>> {
    if "https://"@.is_prefix_of(s) {
        Some(s.skip("https://"@.len() as int))
    } else if "http://"@.is_prefix_of(s) {
        Some(s.skip("http://"@.len() as int))
    } else {
        None
    }
}

/// Consumes the literal `p` at position `i` of `s`, giving the position
/// just past it.
pub fn match_lit(s: &str, i: usize, p: &str) -> (r: Option<usize>)
    requires
        i <= s@.len(),
    ensures
        match r {
            Some(j) => lit_at(s@, i as int, p@) && j == i + p@.len() && j <= s@.len()
                && s@.skip(i as int).skip(p@.len() as int) == s@.skip(j as int),
            None => !lit_at(s@, i as int, p@),
        },
{
    if starts_with_at(s, i, p) {
        let len = s.unicode_len();
        let j = i + p.unicode_len();
        proof {
            assert(s@.skip(i as int).skip(p@.len() as int) =~= s@.skip(j as int));
        }
        Some(j)
    } else {
        None
    }
}

/// Consumes `https://` or `http://` at the start of `s`.
pub fn match_scheme(s: &str) -> (r: Option<usize>)
    ensures
        match r {
            Some(j) => strip_scheme(s@) matches Some(rest) && rest == s@.skip(j as int) && 0 <= j
                <= s@.len(),
            None => strip_scheme(s@) is None,
        },
{
    proof {
        assert(s@.skip(0) =~= s@);
    }
    if let Some(j) = match_lit(s, 0, "https://") {
        return Some(j);
    }
    if let Some(j) = match_lit(s, 0, "http://") {
        return Some(j);
    }
    None
}

// ---------------------------------------------------------------------------
// Bridging positions and remainders
// ---------------------------------------------------------------------------

/// Skipping twice is skipping once.
pub proof fn lemma_skip_skip(s: Seq<char>, i: int, j: int)
    requires
        0 <= i,
        0 <= j,
        i + j <= s.len(),
    ensures
        s.skip(i).skip(j) == s.skip(i + j),
{
    assert(s.skip(i).skip(j) =~= s.skip(i + j));
}

/// A take after a skip is a subrange.
pub proof fn lemma_skip_take(s: Seq<char>, i: int, n: int)
    requires
        0 <= i,
        0 <= n,
        i + n <= s.len(),
    ensures
        s.skip(i).take(n) == s.subrange(i, i + n),
{
    assert(s.skip(i).take(n) =~= s.subrange(i, i + n));
}

/// A literal at position `i` of `s` is a literal prefix of the remainder
/// at `i`, and stripping it lands at `i + p.len()`.
pub proof fn lemma_lit_at_strip(s: Seq<char>, i: int, p: Seq<char>)
    requires
        0 <= i <= s.len(),
    ensures
        lit_at(s, i, p) == (strip_lit(s.skip(i), p) is Some),
        lit_at(s, i, p) ==> strip_lit(s.skip(i), p) == Some(s.skip(i + p.len())),
{
    if i + p.len() <= s.len() {
        assert(s.skip(i).subrange(0, p.len() as int) =~= s.subrange(i, i + p.len()));
        if lit_at(s, i, p) {
            assert(p.is_prefix_of(s.skip(i)));
            assert(s.skip(i).skip(p.len() as int) =~= s.skip(i + p.len()));
        }
        if p.is_prefix_of(s.skip(i)) {
            assert(s.subrange(i, i + p.len()) =~= p);
        }
    }
}

// ---------------------------------------------------------------------------
// Leftmost matches
// ---------------------------------------------------------------------------

/// The first position at or after `i` where `f` matches in `s`, scanning
/// left to right: the leftmost-match rule every body scanner follows.
pub open spec fn first_from(s: Seq<char>, f: spec_fn(Seq<char>, int) -> bool, i: int) -> Option<
    int,
>
    decreases s.len() - i,
{
    if !(0 <= i <= s.len()) {
        None
    } else if f(s, i) {
        Some(i)
    } else if i == s.len() {
        None
    } else {
        first_from(s, f, i + 1)
    }
}

/// A found position with nothing matching before it is the first one.
pub proof fn lemma_first_from_found(s: Seq<char>, f: spec_fn(Seq<char>, int) -> bool, i: int)
    requires
        0 <= i <= s.len(),
        forall|j: int| 0 <= j < i ==> !#[trigger] f(s, j),
        f(s, i),
    ensures
        first_from(s, f, 0) == Some(i),
{
    lemma_first_from_step(s, f, 0, i);
}

/// Scanning from `b` reaches `i` when nothing matches in between.
proof fn lemma_first_from_step(s: Seq<char>, f: spec_fn(Seq<char>, int) -> bool, b: int, i: int)
    requires
        0 <= b <= i <= s.len(),
        forall|j: int| b <= j < i ==> !#[trigger] f(s, j),
        f(s, i),
    ensures
        first_from(s, f, b) == Some(i),
    decreases i - b,
{
    if b < i {
        lemma_first_from_step(s, f, b + 1, i);
    }
}

/// When nothing matches anywhere, there is no first position.
pub proof fn lemma_first_from_none(s: Seq<char>, f: spec_fn(Seq<char>, int) -> bool)
    requires
        forall|j: int| 0 <= j <= s.len() ==> !#[trigger] f(s, j),
    ensures
        first_from(s, f, 0) is None,
{
    lemma_first_from_none_step(s, f, 0);
}

proof fn lemma_first_from_none_step(s: Seq<char>, f: spec_fn(Seq<char>, int) -> bool, b: int)
    requires
        0 <= b <= s.len(),
        forall|j: int| b <= j <= s.len() ==> !#[trigger] f(s, j),
    ensures
        first_from(s, f, b) is None,
    decreases s.len() - b,
{
    if b < s.len() {
        lemma_first_from_none_step(s, f, b + 1);
    }
}

/// The last position in `lo..=i` where `f` matches in `s`: the greedy
/// backtracking rule, which prefers the latest possible match position.
pub open spec fn last_below(s: Seq<char>, f: spec_fn(Seq<char>, int) -> bool, lo: int, i: int) -> Option<
    int,
>
    decreases i - lo + 1,
{
    if !(lo <= i) {
        None
    } else if f(s, i) {
        Some(i)
    } else {
        last_below(s, f, lo, i - 1)
    }
}

/// A found position with nothing matching after it (up to `hi`) is the
/// last one.
pub proof fn lemma_last_below_found(
    s: Seq<char>,
    f: spec_fn(Seq<char>, int) -> bool,
    lo: int,
    i: int,
    hi: int,
)
    requires
        lo <= i <= hi,
        forall|j: int| i < j <= hi ==> !#[trigger] f(s, j),
        f(s, i),
    ensures
        last_below(s, f, lo, hi) == Some(i),
    decreases hi - i,
{
    if i < hi {
        lemma_last_below_found(s, f, lo, i, hi - 1);
    }
}

/// When nothing matches anywhere in `lo..=hi`, there is no last position.
pub proof fn lemma_last_below_none(
    s: Seq<char>,
    f: spec_fn(Seq<char>, int) -> bool,
    lo: int,
    hi: int,
)
    requires
        forall|j: int| lo <= j <= hi ==> !#[trigger] f(s, j),
    ensures
        last_below(s, f, lo, hi) is None,
    decreases hi - lo + 1,
{
    if lo <= hi {
        lemma_last_below_none(s, f, lo, hi - 1);
    }
}

/// Equality of two string slices.
pub fn str_eq(a: &str, b: &str) -> (r: bool)
    ensures
        r == (a@ == b@),
{
    if a.unicode_len() != b.unicode_len() {
        return false;
    }
    let r = starts_with_at(a, 0, b);
    proof {
        if r {
            assert(a@ =~= a@.subrange(0, b@.len() as int));
        } else {
            if a@ == b@ {
                assert(a@.subrange(0, b@.len() as int) =~= b@);
            }
        }
    }
    r
}

// ---------------------------------------------------------------------------
// Building strings
// ---------------------------------------------------------------------------

/// Relies on `String::push`: appends exactly the given character at the end.
#[verifier::external_body]
pub fn push_char(s: &mut String, c: char)
    ensures
        final (s)@ == old(s)@.push(c),
{
    s.push(c)
}

/// Copies the characters `from..to` of `s` into a fresh `String`.
pub fn substr_copy(s: &str, from: usize, to: usize) -> (r: String)
    requires
        from <= to <= s@.len(),
    ensures
        r@ == s@.subrange(from as int, to as int),
{
    String::from_str(s.substring_char(from, to))
}

/// ASCII whitespace, as the blank-field checks use it.
pub open spec fn is_space(c: char) -> bool {
    c == ' ' || c == '\t' || c == '\n' || c == '\r' || c == '\u{b}' || c == '\u{c}'
}

/// Whether `s` trims to nothing: every character is whitespace.
pub open spec fn blank(s: Seq<char>) -> bool {
    forall|i: int| 0 <= i < s.len() ==> is_space(#[trigger] s[i])
}

/// Checks whether a string trims to nothing.
pub fn is_blank(s: &str) -> (r: bool)
    ensures
        r == blank(s@),
{
    let len = s.unicode_len();
    let mut i: usize = 0;
    while i < len
        invariant
            0 <= i <= len,
            len == s@.len(),
            forall|j: int| 0 <= j < i ==> is_space(#[trigger] s@[j]),
        decreases len - i,
    {
        let c = s.get_char(i);
        if !(c == ' ' || c == '\t' || c == '\n' || c == '\r' || c == '\u{b}' || c == '\u{c}') {
            return false;
        }
        i = i + 1;
    }
    true
}

// ---------------------------------------------------------------------------
// ASCII bytes
// ---------------------------------------------------------------------------

/// Every character of `s` is plain ASCII.
pub open spec fn ascii_seq(s: Seq<char>) -> bool {
    forall|i: int| 0 <= i < s.len() ==> (s[i] as int) < 128
}

/// The byte string of an ASCII character string.
pub open spec fn ascii_of(s: Seq<char>) -> Seq<u8> {
    Seq::new(s.len(), |i: int| (s[i] as int) as u8)
}

/// The bytes of `s`, or nothing if any character falls outside ASCII.
pub fn ascii_bytes(s: &str) -> (r: Option<Vec<u8>>)
    ensures
        match r {
            Some(v) => ascii_seq(s@) && v@ == ascii_of(s@),
            None => !ascii_seq(s@),
        },
{
    let len = s.unicode_len();
    let mut out: Vec<u8> = Vec::new();
    let mut i: usize = 0;
    while i < len
        invariant
            0 <= i <= len,
            len == s@.len(),
            out@.len() == i,
            forall|j: int| 0 <= j < i ==> (s@[j] as int) < 128,
            forall|j: int| 0 <= j < i ==> out@[j] == (s@[j] as int) as u8,
        decreases len - i,
    {
        let c = s.get_char(i);
        let u = c as u32;
        if u > 127 {
            return None;
        }
        out.push(u as u8);
        i = i + 1;
    }
    proof {
        assert(out@ =~= ascii_of(s@));
    }
    Some(out)
}

// ---------------------------------------------------------------------------
// ASCII lower-casing
// ---------------------------------------------------------------------------

/// ASCII lower-casing of one character; everything else is untouched.
pub open spec fn lower_char(c: char) -> char {
    if is_upper(c) {
        "abcdefghijklmnopqrstuvwxyz"@[c as int - 'A' as int]
    } else {
        c
    }
}

/// Case-insensitive equality in the ASCII sense: the two strings have the
/// same length and agree character by character up to ASCII case.
pub open spec fn eq_ignore_case(a: Seq<char>, b: Seq<char>) -> bool {
    a.len() == b.len() && forall|i: int|
        0 <= i < a.len() ==> lower_char(a[i]) == lower_char(b[i])
}

/// Lower-cases one ASCII character.
pub fn lower_char_exec(c: char) -> (r: char)
    ensures
        r == lower_char(c),
{
    if 'A' <= c && c <= 'Z' {
        let table = "abcdefghijklmnopqrstuvwxyz";
        let idx = (c as usize) - ('A' as usize);
        proof {
            reveal_strlit("abcdefghijklmnopqrstuvwxyz");
        }
        table.get_char(idx)
    } else {
        c
    }
}

/// Case-insensitive string comparison, ASCII only, as the scrape image
/// equality of the result model asks for.
pub fn str_eq_ignore_case(a: &str, b: &str) -> (r: bool)
    ensures
        r == eq_ignore_case(a@, b@),
{
    let la = a.unicode_len();
    let lb = b.unicode_len();
    if la != lb {
        return false;
    }
    let mut i: usize = 0;
    while i < la
        invariant
            0 <= i <= la,
            la == a@.len(),
            la == b@.len(),
            forall|j: int| 0 <= j < i ==> lower_char(a@[j]) == lower_char(b@[j]),
        decreases la - i,
    {
        if lower_char_exec(a.get_char(i)) != lower_char_exec(b.get_char(i)) {
            return false;
        }
        i = i + 1;
    }
    true
}

} // verus!
