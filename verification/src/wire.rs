//! The wire form of a scrape result: the untagged-union JSON the
//! boundary answers with, built by a verified encoder. The union has no
//! discriminant field — shape alone tells the variants apart, a
//! deliberate wire-compatibility invariant.
use vstd::prelude::*;

use crate::digits;
use crate::result::{ScrapeImage, ScrapeResult, ScrapeResultData, ScrapeResultError};
use crate::text;

verus! {

/// The escape of one character inside a JSON string: quote and
/// backslash escaped, the five short control escapes, a `u00` escape
/// for the rest of the control range, and everything else as itself.
pub open spec fn esc_char(c: char) -> Seq<char> {
    if c == '"' {
        seq!['\\', '"']
    } else if c == '\\' {
        seq!['\\', '\\']
    } else if c == '\u{8}' {
        seq!['\\', 'b']
    } else if c == '\t' {
        seq!['\\', 't']
    } else if c == '\n' {
        seq!['\\', 'n']
    } else if c == '\u{c}' {
        seq!['\\', 'f']
    } else if c == '\r' {
        seq!['\\', 'r']
    } else if (c as int) < 32 {
        seq!['\\', 'u', '0', '0', digits::digit36(c as int / 16), digits::digit36(c as int % 16)]
    } else {
        seq![c]
    }
}

/// The JSON escape of a whole string.
pub open spec fn json_escape(s: Seq<char>) -> Seq<char>
    decreases s.len(),
{
    if s.len() == 0 {
        Seq::empty()
    } else {
        json_escape(s.drop_last()) + esc_char(s.last())
    }
}

/// A quoted JSON string.
pub open spec fn jstr(s: Seq<char>) -> Seq<char> {
    seq!['"'] + json_escape(s) + seq!['"']
}

/// Appends the escape of one character.
fn push_esc(out: &mut String, c: char)
    ensures
        final (out)@ == old(out)@ + esc_char(c),
{
    let ghost base = out@;
    if c == '"' {
        out.append("\\\"");
        proof {
            reveal_strlit("\\\"");
            assert(out@ =~= base + esc_char(c));
        }
    } else if c == '\\' {
        out.append("\\\\");
        proof {
            reveal_strlit("\\\\");
            assert(out@ =~= base + esc_char(c));
        }
    } else if c == '\u{8}' {
        out.append("\\b");
        proof {
            reveal_strlit("\\b");
            assert(out@ =~= base + esc_char(c));
        }
    } else if c == '\t' {
        out.append("\\t");
        proof {
            reveal_strlit("\\t");
            assert(out@ =~= base + esc_char(c));
        }
    } else if c == '\n' {
        out.append("\\n");
        proof {
            reveal_strlit("\\n");
            assert(out@ =~= base + esc_char(c));
        }
    } else if c == '\u{c}' {
        out.append("\\f");
        proof {
            reveal_strlit("\\f");
            assert(out@ =~= base + esc_char(c));
        }
    } else if c == '\r' {
        out.append("\\r");
        proof {
            reveal_strlit("\\r");
            assert(out@ =~= base + esc_char(c));
        }
    } else if (c as u32) < 32 {
        out.append("\\u00");
        let hi = ((c as u32) / 16) as u64;
        let lo = ((c as u32) % 16) as u64;
        text::push_char(out, hex_digit(hi));
        text::push_char(out, hex_digit(lo));
        proof {
            reveal_strlit("\\u00");
            assert(out@ =~= base + esc_char(c));
        }
    } else {
        text::push_char(out, c);
        proof {
            assert(out@ =~= base + esc_char(c));
        }
    }
}

/// One hex digit of the `u00` escape.
fn hex_digit(d: u64) -> (c: char)
    requires
        d < 16,
    ensures
        c == digits::digit36(d as int),
{
    let table = "0123456789abcdefghijklmnopqrstuvwxyz";
    proof {
        reveal_strlit("0123456789abcdefghijklmnopqrstuvwxyz");
    }
    table.get_char(d as usize)
}

/// Appends a quoted, escaped JSON string.
pub fn push_jstr(out: &mut String, s: &str)
    ensures
        final (out)@ == old(out)@ + jstr(s@),
{
    let ghost base = out@;
    text::push_char(out, '"');
    let len = s.unicode_len();
    let mut i: usize = 0;
    proof {
        assert(out@ =~= base + seq!['"'] + json_escape(s@.take(0)));
    }
    while i < len
        invariant
            0 <= i <= len,
            len == s@.len(),
            out@ == base + seq!['"'] + json_escape(s@.take(i as int)),
        decreases len - i,
    {
        push_esc(out, s.get_char(i));
        proof {
            assert(s@.take(i as int + 1).drop_last() =~= s@.take(i as int));
            assert(s@.take(i as int + 1).last() == s@[i as int]);
            assert(out@ =~= base + seq!['"'] + json_escape(s@.take(i as int + 1)));
        }
        i = i + 1;
    }
    text::push_char(out, '"');
    proof {
        assert(s@.take(len as int) =~= s@);
        assert(out@ =~= base + jstr(s@));
    }
}

// ---------------------------------------------------------------------------
// Rendering the union
// ---------------------------------------------------------------------------

/// An optional string field: quoted when present, `null` otherwise.
pub open spec fn jopt_str(o: Option<String>) -> Seq<char> {
    match o {
        None => "null"@,
        Some(s) => jstr(s@),
    }
}

/// The closing part of a string array, from element `i` on.
pub open spec fn jstr_tail(items: Seq<String>, i: int) -> Seq<char>
    decreases items.len() - i,
{
    if !(0 <= i < items.len()) {
        seq![']']
    } else {
        seq![','] + jstr(items[i]@) + jstr_tail(items, i + 1)
    }
}

/// A JSON array of strings.
pub open spec fn jarr_str(items: Seq<String>) -> Seq<char> {
    if items.len() == 0 {
        "[]"@
    } else {
        seq!['['] + jstr(items[0]@) + jstr_tail(items, 1)
    }
}

/// One image object on the wire.
pub open spec fn jimg(im: ScrapeImage) -> Seq<char> {
    "{\"url\":"@ + jstr(im.url@) + ",\"camo_url\":"@ + jstr(im.camo_url@) + "}"@
}

/// The closing part of the image array, from element `i` on.
pub open spec fn jimg_tail(items: Seq<ScrapeImage>, i: int) -> Seq<char>
    decreases items.len() - i,
{
    if !(0 <= i < items.len()) {
        seq![']']
    } else {
        seq![','] + jimg(items[i]) + jimg_tail(items, i + 1)
    }
}

/// The image array on the wire.
pub open spec fn jarr_img(items: Seq<ScrapeImage>) -> Seq<char> {
    if items.len() == 0 {
        "[]"@
    } else {
        seq!['['] + jimg(items[0]) + jimg_tail(items, 1)
    }
}

/// The wire form of a successful scrape.
pub open spec fn render_data(d: ScrapeResultData) -> Seq<char> {
    "{\"source_url\":"@ + jopt_str(d.source_url) + ",\"author_name\":"@ + jopt_str(d.author_name)
        + ",\"additional_tags\":"@ + (match d.additional_tags {
        None => "null"@,
        Some(v) => jarr_str(v@),
    }) + ",\"description\":"@ + jopt_str(d.description) + ",\"images\":"@ + jarr_img(d.images@)
        + "}"@
}

/// The wire form of a structured failure.
pub open spec fn render_error(e: ScrapeResultError) -> Seq<char> {
    "{\"errors\":"@ + jarr_str(e.errors@) + "}"@
}

/// The wire form of a scrape result: the untagged union.
pub open spec fn render_result(sr: ScrapeResult) -> Seq<char> {
    match sr {
        ScrapeResult::Found(d) => render_data(d),
        ScrapeResult::Failed(e) => render_error(e),
        ScrapeResult::NoMatch => "null"@,
    }
}

/// Appends a string array.
fn push_jarr_str(out: &mut String, items: &Vec<String>)
    ensures
        final (out)@ == old(out)@ + jarr_str(items@),
{
    let ghost base = out@;
    if items.len() == 0 {
        out.append("[]");
        return ;
    }
    text::push_char(out, '[');
    push_jstr(out, items[0].as_str());
    let mut i: usize = 1;
    while i < items.len()
        invariant
            1 <= i <= items@.len(),
            items@.len() > 0,
            base + jarr_str(items@) == out@ + jstr_tail(items@, i as int),
        decreases items@.len() - i,
    {
        text::push_char(out, ',');
        push_jstr(out, items[i].as_str());
        i = i + 1;
    }
    proof {
        assert(jstr_tail(items@, items@.len() as int) =~= seq![']']);
        assert(out@.push(']') =~= out@ + seq![']']);
    }
    text::push_char(out, ']');
}

/// Appends an image array.
fn push_jarr_img(out: &mut String, items: &Vec<ScrapeImage>)
    ensures
        final (out)@ == old(out)@ + jarr_img(items@),
{
    let ghost base = out@;
    if items.len() == 0 {
        out.append("[]");
        return ;
    }
    text::push_char(out, '[');
    push_jimg(out, &items[0]);
    let mut i: usize = 1;
    while i < items.len()
        invariant
            1 <= i <= items@.len(),
            items@.len() > 0,
            base + jarr_img(items@) == out@ + jimg_tail(items@, i as int),
        decreases items@.len() - i,
    {
        text::push_char(out, ',');
        push_jimg(out, &items[i]);
        i = i + 1;
    }
    proof {
        assert(jimg_tail(items@, items@.len() as int) =~= seq![']']);
        assert(out@.push(']') =~= out@ + seq![']']);
    }
    text::push_char(out, ']');
}

/// Appends one image object.
fn push_jimg(out: &mut String, im: &ScrapeImage)
    ensures
        final (out)@ == old(out)@ + jimg(*im),
{
    out.append("{\"url\":");
    push_jstr(out, im.url.as_str());
    out.append(",\"camo_url\":");
    push_jstr(out, im.camo_url.as_str());
    out.append("}");
}

/// Renders a scrape result as the wire JSON the boundary answers with.
pub fn render(sr: &ScrapeResult) -> (r: String)
    ensures
        r@ == render_result(*sr),
{
    match sr {
        ScrapeResult::NoMatch => String::from_str("null"),
        ScrapeResult::Failed(e) => {
            let mut out = String::from_str("{\"errors\":");
            push_jarr_str(&mut out, &e.errors);
            out.append("}");
            out
        },
        ScrapeResult::Found(d) => {
            let mut out = String::from_str("{\"source_url\":");
            match &d.source_url {
                None => out.append("null"),
                Some(s) => push_jstr(&mut out, s.as_str()),
            }
            out.append(",\"author_name\":");
            match &d.author_name {
                None => out.append("null"),
                Some(s) => push_jstr(&mut out, s.as_str()),
            }
            out.append(",\"additional_tags\":");
            match &d.additional_tags {
                None => out.append("null"),
                Some(v) => push_jarr_str(&mut out, v),
            }
            out.append(",\"description\":");
            match &d.description {
                None => out.append("null"),
                Some(s) => push_jstr(&mut out, s.as_str()),
            }
            out.append(",\"images\":");
            push_jarr_img(&mut out, &d.images);
            out.append("}");
            out
        },
    }
}

/// The body the boundary answers a scrape outcome with: a missing match
/// is rendered as the documented placeholder error, everything else as
/// the result's own wire form. No-match yields the placeholder exactly.
pub fn render_outcome(outcome: &Option<ScrapeResult>) -> (r: String)
    ensures
        match outcome {
            None => r@ == "{\"errors\":[\"URL invalid\"]}"@,
            Some(sr) => r@ == render_result(*sr),
        },
{
    match outcome {
        Some(sr) => render(sr),
        None => {
            let e = ScrapeResultError::from_message(String::from_str("URL invalid"));
            let mut out = String::from_str("{\"errors\":");
            push_jarr_str(&mut out, &e.errors);
            out.append("}");
            proof {
                reveal_strlit("URL invalid");
                reveal_strlit("{\"errors\":[\"URL invalid\"]}");
                reveal_strlit("{\"errors\":");
                reveal_strlit("}");
                reveal_strlit("[");
                lemma_escape_plain("URL invalid"@);
                assert(jstr_tail(e.errors@, 1) =~= seq![']']);
                assert(out@ =~= "{\"errors\":[\"URL invalid\"]}"@);
            }
            out
        },
    }
}

/// Escaping text without quotes, backslashes or control characters
/// leaves it unchanged.
pub proof fn lemma_escape_plain(s: Seq<char>)
    requires
        forall|i: int|
            0 <= i < s.len() ==> (#[trigger] s[i]) != '"' && s[i] != '\\' && (s[i] as int) >= 32,
    ensures
        json_escape(s) == s,
    decreases s.len(),
{
    if s.len() == 0 {
        assert(json_escape(s) =~= s);
    } else {
        lemma_escape_plain(s.drop_last());
        assert(esc_char(s.last()) == seq![s.last()]);
        assert(json_escape(s) =~= s);
    }
}

} // verus!
