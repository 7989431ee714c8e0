//! The fan-art-platform backend: host-based classification, page-data
//! extraction, and the three additive hi-res upgrade strategies.
use vstd::prelude::*;

use crate::text;

verus! {

/// The platform host, or any subdomain of it.
pub open spec fn da_host(h: Seq<char>) -> bool {
    h == "deviantart.com"@ || (h.len() >= ".deviantart.com"@.len() && h.skip(
        h.len() - ".deviantart.com"@.len(),
    ) == ".deviantart.com"@)
}

/// Classifies by host: the platform host itself or any subdomain.
pub fn is_deviantart(host: Option<&String>) -> (r: bool)
    ensures
        match host {
            Some(h) => r == da_host(h@),
            None => r == false,
        },
{
    let h = match host {
        None => {
            return false;
        },
        Some(h) => h.as_str(),
    };
    if text::str_eq(h, "deviantart.com") {
        return true;
    }
    let len = h.unicode_len();
    let suffix = ".deviantart.com";
    let slen = suffix.unicode_len();
    if len < slen {
        return false;
    }
    let r = text::starts_with_at(h, len - slen, suffix);
    proof {
        if r {
            assert(h@.skip(len - slen) =~= h@.subrange(len - slen, len as int));
        } else {
            if da_host(h@) {
                assert(h@.subrange(len - slen, len as int) =~= h@.skip(len - slen));
            }
        }
    }
    r
}

// ---------------------------------------------------------------------------
// Page-data captures
// ---------------------------------------------------------------------------

/// A quoted-capture link tag at `i`: the fixed prefix, a quote-free run
/// (the capture), and the fixed suffix.
pub open spec fn link_at(s: Seq<char>, i: int, pre: Seq<char>, suf: Seq<char>) -> bool {
    text::lit_at(s, i, pre) && {
        let q = text::prefix_len(s.skip(i + pre.len()), |c: char| c != '"');
        text::lit_at(s, i + pre.len() + q, suf)
    }
}

/// The capture of a link tag at `i`.
pub open spec fn link_cap(s: Seq<char>, i: int, pre: Seq<char>) -> Seq<char> {
    let q = text::prefix_len(s.skip(i + pre.len()), |c: char| c != '"');
    s.subrange(i + pre.len(), i + pre.len() + q)
}

/// Tests for a link tag at one position and takes its capture.
fn link_probe(s: &str, i: usize, pre: &str, suf: &str) -> (r: Option<String>)
    requires
        i <= s@.len(),
    ensures
        match r {
            Some(c) => link_at(s@, i as int, pre@, suf@) && c@ == link_cap(s@, i as int, pre@),
            None => !link_at(s@, i as int, pre@, suf@),
        },
{
    let len = s.unicode_len();
    let j0 = match text::match_lit(s, i, pre) {
        None => {
            return None;
        },
        Some(j) => j,
    };
    let q = text::run_len(s, j0, text::CharKind::NotQuote);
    proof {
        assert(text::kind_pred(text::CharKind::NotQuote) == (|c: char| c != '"'));
    }
    if text::starts_with_at(s, j0 + q, suf) {
        let cap = text::substr_copy(s, j0, j0 + q);
        proof {
            text::lemma_skip_take(s@, j0 as int, q as int);
        }
        Some(cap)
    } else {
        None
    }
}

/// Finds the first link tag with the given prefix and suffix and takes
/// its capture.
pub open spec fn first_link(s: Seq<char>, pre: Seq<char>, suf: Seq<char>) -> Option<Seq<char>> {
    match text::first_from(s, |a: Seq<char>, b: int| link_at(a, b, pre, suf), 0) {
        None => None,
        Some(i) => Some(link_cap(s, i, pre)),
    }
}

/// Scans a page body for the first link tag of a given shape.
fn find_link(s: &str, pre: &str, suf: &str) -> (r: Option<String>)
    requires
        pre@.len() > 0,
    ensures
        match r {
            Some(c) => first_link(s@, pre@, suf@) matches Some(v) && c@ == v,
            None => first_link(s@, pre@, suf@) is None,
        },
{
    let ghost f = |a: Seq<char>, b: int| link_at(a, b, pre@, suf@);
    let len = s.unicode_len();
    let mut i: usize = 0;
    while i < len
        invariant
            0 <= i <= len,
            len == s@.len(),
            pre@.len() > 0,
            forall|t: int| 0 <= t < i ==> !#[trigger] f(s@, t),
            f == (|a: Seq<char>, b: int| link_at(a, b, pre@, suf@)),
        decreases len - i,
    {
        match link_probe(s, i, pre, suf) {
            Some(c) => {
                proof {
                    text::lemma_first_from_found(s@, f, i as int);
                }
                return Some(c);
            },
            None => {},
        }
        i = i + 1;
    }
    proof {
        assert(!f(s@, len as int));
        text::lemma_first_from_none(s@, f);
    }
    None
}

/// The preload image link of a page body.
pub open spec fn da_image_link(s: Seq<char>) -> Option<Seq<char>> {
    first_link(s, "<link data-rh=\"true\" rel=\"preload\" href=\""@, "\" as=\"image\"/>"@)
}

/// Finds the preload image link.
pub fn find_image_link(body: &str) -> (r: Option<String>)
    ensures
        match r {
            Some(c) => da_image_link(body@) matches Some(v) && c@ == v,
            None => da_image_link(body@) is None,
        },
{
    proof {
        reveal_strlit("<link data-rh=\"true\" rel=\"preload\" href=\"");
    }
    find_link(body, "<link data-rh=\"true\" rel=\"preload\" href=\"", "\" as=\"image\"/>")
}

/// The canonical source link of a page body.
pub open spec fn da_source_link(s: Seq<char>) -> Option<Seq<char>> {
    first_link(s, "<link data-rh=\"true\" rel=\"canonical\" href=\""@, "\"/>"@)
}

/// Finds the canonical source link.
pub fn find_source_link(body: &str) -> (r: Option<String>)
    ensures
        match r {
            Some(c) => da_source_link(body@) matches Some(v) && c@ == v,
            None => da_source_link(body@) is None,
        },
{
    proof {
        reveal_strlit("<link data-rh=\"true\" rel=\"canonical\" href=\"");
    }
    find_link(body, "<link data-rh=\"true\" rel=\"canonical\" href=\"", "\"/>")
}

/// An artist capture at `i` of a source URL: the platform prefix, a
/// slash-free run, then `/art`.
pub open spec fn artist_at(s: Seq<char>, i: int) -> bool {
    text::lit_at(s, i, "https://www.deviantart.com/"@) && {
        let pre = "https://www.deviantart.com/"@;
        let n = text::prefix_len(s.skip(i + pre.len()), |c: char| c != '/');
        text::lit_at(s, i + pre.len() + n, "/art"@)
    }
}

/// The artist captured at `i`.
pub open spec fn artist_cap(s: Seq<char>, i: int) -> Seq<char> {
    let pre = "https://www.deviantart.com/"@;
    let n = text::prefix_len(s.skip(i + pre.len()), |c: char| c != '/');
    s.subrange(i + pre.len(), i + pre.len() + n)
}

/// The artist named by a source URL: the first match of the capture.
pub open spec fn da_artist(s: Seq<char>) -> Option<Seq<char>> {
    match text::first_from(s, |a: Seq<char>, b: int| artist_at(a, b), 0) {
        None => None,
        Some(i) => Some(artist_cap(s, i)),
    }
}

/// Finds the artist capture in a source URL.
pub fn find_artist(source: &str) -> (r: Option<String>)
    ensures
        match r {
            Some(c) => da_artist(source@) matches Some(v) && c@ == v,
            None => da_artist(source@) is None,
        },
{
    let ghost f = |a: Seq<char>, b: int| artist_at(a, b);
    let len = source.unicode_len();
    let mut i: usize = 0;
    while i < len
        invariant
            0 <= i <= len,
            len == source@.len(),
            forall|t: int| 0 <= t < i ==> !#[trigger] f(source@, t),
            f == (|a: Seq<char>, b: int| artist_at(a, b)),
        decreases len - i,
    {
        let hit = match text::match_lit(source, i, "https://www.deviantart.com/") {
            None => None,
            Some(j0) => {
                let n = text::run_len(source, j0, text::CharKind::NotSlash);
                proof {
                    assert(text::kind_pred(text::CharKind::NotSlash) == (|c: char| c != '/'));
                }
                if text::starts_with_at(source, j0 + n, "/art") {
                    let cap = text::substr_copy(source, j0, j0 + n);
                    proof {
                        text::lemma_skip_take(source@, j0 as int, n as int);
                    }
                    Some(cap)
                } else {
                    None
                }
            },
        };
        match hit {
            Some(c) => {
                proof {
                    assert(f(source@, i as int));
                    text::lemma_first_from_found(source@, f, i as int);
                }
                return Some(c);
            },
            None => {
                proof {
                    assert(!f(source@, i as int));
                }
            },
        }
        i = i + 1;
    }
    proof {
        reveal_strlit("https://www.deviantart.com/");
        assert(!f(source@, len as int));
        text::lemma_first_from_none(source@, f);
    }
    None
}

/// A dash at `j` whose whole suffix is one or more digits: the legacy
/// serial marker.
pub open spec fn serial_dash_at(s: Seq<char>, j: int) -> bool {
    0 <= j < s.len() - 1 && s[j] == '-' && text::prefix_len(
        s.skip(j + 1),
        |c: char| text::is_digit(c),
    ) == s.len() - 1 - j
}

/// The serial of a source URL: the digits after the dash that closes a
/// URL starting with the platform prefix.
pub open spec fn da_serial(s: Seq<char>) -> Option<Seq<char>> {
    match text::first_from(
        s,
        |a: Seq<char>, b: int| text::lit_at(a, b, "https://www.deviantart.com/"@),
        0,
    ) {
        None => None,
        Some(i) => match text::first_from(
            s,
            |a: Seq<char>, b: int| serial_dash_at(a, b),
            i + "https://www.deviantart.com/"@.len(),
        ) {
            None => None,
            Some(j) => Some(s.skip(j + 1)),
        },
    }
}

/// A found position at or after `b` with nothing matching in between is
/// the first from `b`.
proof fn lemma_first_from_offset(s: Seq<char>, f: spec_fn(Seq<char>, int) -> bool, b: int, i: int)
    requires
        0 <= b <= i <= s.len(),
        forall|t: int| b <= t < i ==> !#[trigger] f(s, t),
        f(s, i),
    ensures
        text::first_from(s, f, b) == Some(i),
    decreases i - b,
{
    if b < i {
        lemma_first_from_offset(s, f, b + 1, i);
    }
}

/// With nothing matching from `b` on, there is no first from `b`.
proof fn lemma_first_from_offset_none(s: Seq<char>, f: spec_fn(Seq<char>, int) -> bool, b: int)
    requires
        0 <= b <= s.len(),
        forall|t: int| b <= t <= s.len() ==> !#[trigger] f(s, t),
    ensures
        text::first_from(s, f, b) is None,
    decreases s.len() - b,
{
    if b < s.len() {
        lemma_first_from_offset_none(s, f, b + 1);
    }
}

/// Finds the serial capture in a source URL.
pub fn find_serial(source: &str) -> (r: Option<String>)
    ensures
        match r {
            Some(c) => da_serial(source@) matches Some(v) && c@ == v,
            None => da_serial(source@) is None,
        },
{
    let ghost fpre = |a: Seq<char>, b: int| text::lit_at(a, b, "https://www.deviantart.com/"@);
    let ghost fd = |a: Seq<char>, b: int| serial_dash_at(a, b);
    let len = source.unicode_len();
    let mut i: usize = 0;
    let mut start: Option<usize> = None;
    while i < len && start.is_none()
        invariant
            0 <= i <= len,
            len == source@.len(),
            match start {
                None => forall|t: int| 0 <= t < i ==> !#[trigger] fpre(source@, t),
                Some(st) => text::first_from(source@, fpre, 0) matches Some(p) && st == p
                    + "https://www.deviantart.com/"@.len() && 0 <= st <= len,
            },
            fpre == (|a: Seq<char>, b: int| text::lit_at(a, b, "https://www.deviantart.com/"@)),
        decreases len - i + if start is Some {
            0int
        } else {
            1int
        },
    {
        match text::match_lit(source, i, "https://www.deviantart.com/") {
            Some(j0) => {
                proof {
                    text::lemma_first_from_found(source@, fpre, i as int);
                }
                start = Some(j0);
            },
            None => {
                i = i + 1;
            },
        }
    }
    let st = match start {
        None => {
            proof {
                reveal_strlit("https://www.deviantart.com/");
                assert(!fpre(source@, len as int));
                text::lemma_first_from_none(source@, fpre);
            }
            return None;
        },
        Some(st) => st,
    };
    let mut j = st;
    while j < len
        invariant
            st <= j <= len,
            len == source@.len(),
            text::first_from(source@, fpre, 0) matches Some(p) && st == p
                + "https://www.deviantart.com/"@.len(),
            forall|t: int| st <= t < j ==> !#[trigger] fd(source@, t),
            fd == (|a: Seq<char>, b: int| serial_dash_at(a, b)),
            fpre == (|a: Seq<char>, b: int| text::lit_at(a, b, "https://www.deviantart.com/"@)),
        decreases len - j,
    {
        let is_dash = source.get_char(j) == '-';
        let mut hit = false;
        if is_dash && j + 1 < len {
            let d = text::run_len(source, j + 1, text::CharKind::Digit);
            proof {
                assert(text::kind_pred(text::CharKind::Digit) == (|c: char| text::is_digit(c)));
            }
            if d > 0 && j + 1 + d == len {
                hit = true;
            }
        }
        if hit {
            proof {
                assert(fd(source@, j as int));
                lemma_first_from_offset(source@, fd, st as int, j as int);
                assert(source@.subrange(j + 1, len as int) =~= source@.skip(j + 1));
            }
            return Some(text::substr_copy(source, j + 1, len));
        }
        proof {
            assert(!fd(source@, j as int));
        }
        j = j + 1;
    }
    proof {
        assert(!fd(source@, len as int));
        lemma_first_from_offset_none(source@, fd, st as int);
    }
    None
}

// ---------------------------------------------------------------------------
// Hi-res strategies: the CDN patterns
// ---------------------------------------------------------------------------

/// The intermediary URL built from a CDN asset URL matching at `i`: the
/// `images-wixmp` domain, `/intermediary/`, and the object id and name.
pub open spec fn cdn_built_at(s: Seq<char>, i: int) -> Option<Seq<char>> {
    if !(0 <= i <= s.len()) {
        None
    } else {
        match text::strip_lit(s.skip(i), "https://images-wixmp-"@) {
            None => None,
            Some(r1) => {
                let h = text::prefix_len(r1, |c: char| text::is_hex_lower(c));
                if h <= 0 {
                    None
                } else {
                    match text::strip_lit(r1.skip(h), ".wixmp.com"@) {
                        None => None,
                        Some(r2) => {
                            let r3 = match text::strip_lit(r2, "/intermediary"@) {
                                Some(x) => x,
                                None => r2,
                            };
                            match text::strip_lit(r3, "/f/"@) {
                                None => None,
                                Some(r4) => {
                                    let u = text::prefix_len(r4, |c: char| c != '/');
                                    match text::strip_lit(r4.skip(u), "/"@) {
                                        None => None,
                                        Some(r5) => {
                                            let n = text::prefix_len(
                                                r5,
                                                |c: char| c != '/' && c != '?',
                                            );
                                            Some(
                                                s.subrange(
                                                    i,
                                                    i + "https://images-wixmp-"@.len() + h
                                                        + ".wixmp.com"@.len(),
                                                ) + "/intermediary/"@ + r4.take(u) + "/"@
                                                    + r5.take(n),
                                            )
                                        },
                                    }
                                },
                            }
                        },
                    }
                }
            },
        }
    }
}

/// The intermediary URL of the first CDN match in an asset URL.
pub open spec fn cdn_first(s: Seq<char>) -> Option<Seq<char>> {
    match text::first_from(s, |a: Seq<char>, b: int| cdn_built_at(a, b) is Some, 0) {
        None => None,
        Some(i) => cdn_built_at(s, i),
    }
}

/// Tests for a CDN asset match at one position and builds the
/// intermediary URL.
#[verifier::rlimit(60)]
fn cdn_probe(s: &str, i: usize) -> (r: Option<String>)
    requires
        i <= s@.len(),
    ensures
        match r {
            Some(c) => cdn_built_at(s@, i as int) == Some(c@),
            None => cdn_built_at(s@, i as int) is None,
        },
{
    let len = s.unicode_len();
    let j0 = match text::match_lit(s, i, "https://images-wixmp-") {
        None => {
            proof {
                text::lemma_lit_at_strip(s@, i as int, "https://images-wixmp-"@);
            }
            return None;
        },
        Some(j) => {
            proof {
                text::lemma_lit_at_strip(s@, i as int, "https://images-wixmp-"@);
            }
            j
        },
    };
    let h = text::run_len(s, j0, text::CharKind::HexLower);
    proof {
        assert(text::kind_pred(text::CharKind::HexLower) == (|c: char| text::is_hex_lower(c)));
        text::lemma_skip_skip(s@, j0 as int, h as int);
    }
    if h == 0 {
        return None;
    }
    let j1 = match text::match_lit(s, j0 + h, ".wixmp.com") {
        None => {
            proof {
                text::lemma_lit_at_strip(s@, j0 + h as int, ".wixmp.com"@);
            }
            return None;
        },
        Some(j) => {
            proof {
                text::lemma_lit_at_strip(s@, j0 + h as int, ".wixmp.com"@);
            }
            j
        },
    };
    let j2 = match text::match_lit(s, j1, "/intermediary") {
        Some(j) => {
            proof {
                text::lemma_lit_at_strip(s@, j1 as int, "/intermediary"@);
            }
            j
        },
        None => {
            proof {
                text::lemma_lit_at_strip(s@, j1 as int, "/intermediary"@);
            }
            j1
        },
    };
    let j3 = match text::match_lit(s, j2, "/f/") {
        None => {
            proof {
                text::lemma_lit_at_strip(s@, j2 as int, "/f/"@);
            }
            return None;
        },
        Some(j) => {
            proof {
                text::lemma_lit_at_strip(s@, j2 as int, "/f/"@);
            }
            j
        },
    };
    let u = text::run_len(s, j3, text::CharKind::NotSlash);
    proof {
        assert(text::kind_pred(text::CharKind::NotSlash) == (|c: char| c != '/'));
        text::lemma_skip_skip(s@, j3 as int, u as int);
    }
    let j4 = match text::match_lit(s, j3 + u, "/") {
        None => {
            proof {
                text::lemma_lit_at_strip(s@, j3 + u as int, "/"@);
            }
            return None;
        },
        Some(j) => {
            proof {
                text::lemma_lit_at_strip(s@, j3 + u as int, "/"@);
            }
            j
        },
    };
    let n = text::run_len(s, j4, text::CharKind::NotSlashQuery);
    proof {
        assert(text::kind_pred(text::CharKind::NotSlashQuery) == (
        |c: char| c != '/' && c != '?'));
    }
    let mut out = text::substr_copy(s, i, j0 + h + ".wixmp.com".unicode_len());
    out.append("/intermediary/");
    let uuid = text::substr_copy(s, j3, j3 + u);
    out.append(uuid.as_str());
    out.append("/");
    let name = text::substr_copy(s, j4, j4 + n);
    out.append(name.as_str());
    proof {
        text::lemma_skip_take(s@, j3 as int, u as int);
        text::lemma_skip_take(s@, j4 as int, n as int);
    }
    Some(out)
}

/// Builds the intermediary candidate of an asset URL, from its first
/// CDN match.
pub fn intermediary_candidate(url: &str) -> (r: Option<String>)
    ensures
        match r {
            Some(c) => cdn_first(url@) == Some(c@),
            None => cdn_first(url@) is None,
        },
{
    let ghost f = |a: Seq<char>, b: int| cdn_built_at(a, b) is Some;
    let len = url.unicode_len();
    let mut i: usize = 0;
    while i < len
        invariant
            0 <= i <= len,
            len == url@.len(),
            forall|t: int| 0 <= t < i ==> !#[trigger] f(url@, t),
            f == (|a: Seq<char>, b: int| cdn_built_at(a, b) is Some),
        decreases len - i,
    {
        match cdn_probe(url, i) {
            Some(c) => {
                proof {
                    text::lemma_first_from_found(url@, f, i as int);
                }
                return Some(c);
            },
            None => {},
        }
        i = i + 1;
    }
    proof {
        reveal_strlit("https://images-wixmp-");
        text::lemma_lit_at_strip(url@, len as int, "https://images-wixmp-"@);
        assert(!f(url@, len as int));
        text::lemma_first_from_none(url@, f);
    }
    None
}

/// A tiered PNG CDN URL at `i`: the fill-path shape whose rewrite is
/// the URL itself.
pub open spec fn png_at(s: Seq<char>, i: int) -> bool {
    0 <= i <= s.len() && match text::strip_lit(s.skip(i), "https://"@) {
        None => false,
        Some(r0) => {
            let a = text::prefix_len(r0, text::kind_pred(text::CharKind::AlnumLowerDashDot));
            a > 0 && {
                let r1 = match text::strip_lit(r0.skip(a), "/intermediary"@) {
                    Some(x) => x,
                    None => r0.skip(a),
                };
                match text::strip_lit(r1, "/f/"@) {
                    None => false,
                    Some(r2) => {
                        let h = text::prefix_len(
                            r2,
                            text::kind_pred(text::CharKind::HexLowerDash),
                        );
                        h > 0 && match text::strip_lit(r2.skip(h), "/"@) {
                            None => false,
                            Some(r3) => {
                                let m = text::prefix_len(
                                    r3,
                                    text::kind_pred(text::CharKind::AlnumLowerDash),
                                );
                                m > 0 && match text::strip_lit(r3.skip(m), ".png/v1/fill/"@) {
                                    None => false,
                                    Some(r4) => {
                                        let fl = text::prefix_len(
                                            r4,
                                            text::kind_pred(
                                                text::CharKind::AlnumLowerUnderComma,
                                            ),
                                        );
                                        fl > 0 && match text::strip_lit(r4.skip(fl), "/"@) {
                                            None => false,
                                            Some(r5) => {
                                                let nm = text::prefix_len(
                                                    r5,
                                                    text::kind_pred(
                                                        text::CharKind::AlnumLowerUnderDash,
                                                    ),
                                                );
                                                nm > 0 && text::strip_lit(r5.skip(nm), ".png"@)
                                                    is Some
                                            },
                                        }
                                    },
                                }
                            },
                        }
                    },
                }
            }
        },
    }
}

/// Whether an asset URL matches the tiered PNG shape anywhere.
pub open spec fn png_match(s: Seq<char>) -> bool {
    text::first_from(s, |a: Seq<char>, b: int| png_at(a, b), 0) is Some
}

/// Tests for the tiered PNG shape at one position.
#[verifier::rlimit(100)]
fn png_probe(s: &str, i: usize) -> (r: bool)
    requires
        i <= s@.len(),
    ensures
        r == png_at(s@, i as int),
{
    let len = s.unicode_len();
    let j0 = match text::match_lit(s, i, "https://") {
        None => {
            proof {
                text::lemma_lit_at_strip(s@, i as int, "https://"@);
            }
            return false;
        },
        Some(j) => {
            proof {
                text::lemma_lit_at_strip(s@, i as int, "https://"@);
            }
            j
        },
    };
    let a = text::run_len(s, j0, text::CharKind::AlnumLowerDashDot);
    proof {
        text::lemma_skip_skip(s@, j0 as int, a as int);
    }
    if a == 0 {
        return false;
    }
    let j1 = match text::match_lit(s, j0 + a, "/intermediary") {
        Some(j) => {
            proof {
                text::lemma_lit_at_strip(s@, j0 + a as int, "/intermediary"@);
            }
            j
        },
        None => {
            proof {
                text::lemma_lit_at_strip(s@, j0 + a as int, "/intermediary"@);
            }
            j0 + a
        },
    };
    let j2 = match text::match_lit(s, j1, "/f/") {
        None => {
            proof {
                text::lemma_lit_at_strip(s@, j1 as int, "/f/"@);
            }
            return false;
        },
        Some(j) => {
            proof {
                text::lemma_lit_at_strip(s@, j1 as int, "/f/"@);
            }
            j
        },
    };
    let h = text::run_len(s, j2, text::CharKind::HexLowerDash);
    proof {
        text::lemma_skip_skip(s@, j2 as int, h as int);
    }
    if h == 0 {
        return false;
    }
    let j3 = match text::match_lit(s, j2 + h, "/") {
        None => {
            proof {
                text::lemma_lit_at_strip(s@, j2 + h as int, "/"@);
            }
            return false;
        },
        Some(j) => {
            proof {
                text::lemma_lit_at_strip(s@, j2 + h as int, "/"@);
            }
            j
        },
    };
    let m = text::run_len(s, j3, text::CharKind::AlnumLowerDash);
    proof {
        text::lemma_skip_skip(s@, j3 as int, m as int);
    }
    if m == 0 {
        return false;
    }
    let j4 = match text::match_lit(s, j3 + m, ".png/v1/fill/") {
        None => {
            proof {
                text::lemma_lit_at_strip(s@, j3 + m as int, ".png/v1/fill/"@);
            }
            return false;
        },
        Some(j) => {
            proof {
                text::lemma_lit_at_strip(s@, j3 + m as int, ".png/v1/fill/"@);
            }
            j
        },
    };
    let fl = text::run_len(s, j4, text::CharKind::AlnumLowerUnderComma);
    proof {
        text::lemma_skip_skip(s@, j4 as int, fl as int);
    }
    if fl == 0 {
        return false;
    }
    let j5 = match text::match_lit(s, j4 + fl, "/") {
        None => {
            proof {
                text::lemma_lit_at_strip(s@, j4 + fl as int, "/"@);
            }
            return false;
        },
        Some(j) => {
            proof {
                text::lemma_lit_at_strip(s@, j4 + fl as int, "/"@);
            }
            j
        },
    };
    let nm = text::run_len(s, j5, text::CharKind::AlnumLowerUnderDash);
    proof {
        text::lemma_skip_skip(s@, j5 as int, nm as int);
    }
    if nm == 0 {
        return false;
    }
    let ok = text::starts_with_at(s, j5 + nm, ".png");
    proof {
        text::lemma_lit_at_strip(s@, j5 + nm as int, ".png"@);
    }
    ok
}

/// Whether the tiered PNG shape occurs anywhere in the URL.
pub fn has_png_shape(url: &str) -> (r: bool)
    ensures
        r == png_match(url@),
{
    let ghost f = |a: Seq<char>, b: int| png_at(a, b);
    let len = url.unicode_len();
    let mut i: usize = 0;
    while i < len
        invariant
            0 <= i <= len,
            len == url@.len(),
            forall|t: int| 0 <= t < i ==> !#[trigger] f(url@, t),
            f == (|a: Seq<char>, b: int| png_at(a, b)),
        decreases len - i,
    {
        if png_probe(url, i) {
            proof {
                text::lemma_first_from_found(url@, f, i as int);
            }
            return true;
        }
        i = i + 1;
    }
    proof {
        reveal_strlit("https://");
        text::lemma_lit_at_strip(url@, len as int, "https://"@);
        assert(!f(url@, len as int));
        text::lemma_first_from_none(url@, f);
    }
    false
}

/// The quality digits of a tiered JPEG CDN URL at `i`: their position
/// and length, when the fill-path shape matches there.
pub open spec fn jpg_q_at(s: Seq<char>, i: int) -> Option<(int, int)> {
    if !(0 <= i <= s.len()) {
        None
    } else {
        match text::strip_lit(s.skip(i), "https://"@) {
            None => None,
            Some(r0) => {
                let a = text::prefix_len(r0, text::kind_pred(text::CharKind::AlnumLowerDashDot));
                if a <= 0 {
                    None
                } else {
                    let r1 = match text::strip_lit(r0.skip(a), "/intermediary"@) {
                        Some(x) => x,
                        None => r0.skip(a),
                    };
                    match text::strip_lit(r1, "/f/"@) {
                        None => None,
                        Some(r2) => {
                            let h = text::prefix_len(
                                r2,
                                text::kind_pred(text::CharKind::HexLowerDash),
                            );
                            if h <= 0 {
                                None
                            } else {
                                match text::strip_lit(r2.skip(h), "/"@) {
                                    None => None,
                                    Some(r3) => {
                                        let m = text::prefix_len(
                                            r3,
                                            text::kind_pred(text::CharKind::AlnumLowerDash),
                                        );
                                        if m <= 0 {
                                            None
                                        } else {
                                            match text::strip_lit(
                                                r3.skip(m),
                                                ".jpg/v1/fill/w_"@,
                                            ) {
                                                None => None,
                                                Some(r4) => jpg_q_tail(s, r4),
                                            }
                                        }
                                    },
                                }
                            }
                        },
                    }
                }
            },
        }
    }
}

/// The tail of the JPEG shape after `w_`: width, height, the quality
/// digits, and the escaped-slash name with its extension.
pub open spec fn jpg_q_tail(s: Seq<char>, r4: Seq<char>) -> Option<(int, int)> {
    let w = text::prefix_len(r4, |c: char| text::is_digit(c));
    if w <= 0 {
        None
    } else {
        match text::strip_lit(r4.skip(w), ",h_"@) {
            None => None,
            Some(r5) => {
                let hh = text::prefix_len(r5, |c: char| text::is_digit(c));
                if hh <= 0 {
                    None
                } else {
                    match text::strip_lit(r5.skip(hh), ",q_"@) {
                        None => None,
                        Some(r6) => {
                            let q = text::prefix_len(r6, |c: char| text::is_digit(c));
                            if q <= 0 {
                                None
                            } else {
                                match text::strip_lit(r6.skip(q), ","@) {
                                    None => None,
                                    Some(r7) => {
                                        let al = text::prefix_len(
                                            r7,
                                            text::kind_pred(text::CharKind::LowerAlpha),
                                        );
                                        if al <= 0 {
                                            None
                                        } else {
                                            match text::strip_lit(r7.skip(al), "\\/"@) {
                                                None => None,
                                                Some(r8) => {
                                                    let nm = text::prefix_len(
                                                        r8,
                                                        text::kind_pred(
                                                            text::CharKind::LowerSixUnderDash,
                                                        ),
                                                    );
                                                    if nm > 0 && (text::strip_lit(
                                                        r8.skip(nm),
                                                        ".jpeg"@,
                                                    ) is Some || text::strip_lit(
                                                        r8.skip(nm),
                                                        ".jpg"@,
                                                    ) is Some) {
                                                        Some((s.len() - r6.len(), q))
                                                    } else {
                                                        None
                                                    }
                                                },
                                            }
                                        }
                                    },
                                }
                            }
                        },
                    }
                }
            },
        }
    }
}

/// The rewrite of the first JPEG match: its quality digits become 100.
pub open spec fn jpg_rewrite(s: Seq<char>) -> Option<Seq<char>> {
    match text::first_from(s, |a: Seq<char>, b: int| jpg_q_at(a, b) is Some, 0) {
        None => None,
        Some(i) => {
            let (qs, ql) = jpg_q_at(s, i)->0;
            Some(s.take(qs) + "100"@ + s.skip(qs + ql))
        },
    }
}

/// Tests for the JPEG shape at one position, giving the quality digits.
#[verifier::rlimit(100)]
fn jpg_probe(s: &str, i: usize) -> (r: Option<(usize, usize)>)
    requires
        i <= s@.len(),
    ensures
        match r {
            Some(p) => jpg_q_at(s@, i as int) == Some((p.0 as int, p.1 as int)) && p.0 + p.1
                <= s@.len(),
            None => jpg_q_at(s@, i as int) is None,
        },
{
    let len = s.unicode_len();
    let j0 = match text::match_lit(s, i, "https://") {
        None => {
            proof {
                text::lemma_lit_at_strip(s@, i as int, "https://"@);
            }
            return None;
        },
        Some(j) => {
            proof {
                text::lemma_lit_at_strip(s@, i as int, "https://"@);
            }
            j
        },
    };
    let a = text::run_len(s, j0, text::CharKind::AlnumLowerDashDot);
    proof {
        text::lemma_skip_skip(s@, j0 as int, a as int);
    }
    if a == 0 {
        return None;
    }
    let j1 = match text::match_lit(s, j0 + a, "/intermediary") {
        Some(j) => {
            proof {
                text::lemma_lit_at_strip(s@, j0 + a as int, "/intermediary"@);
            }
            j
        },
        None => {
            proof {
                text::lemma_lit_at_strip(s@, j0 + a as int, "/intermediary"@);
            }
            j0 + a
        },
    };
    let j2 = match text::match_lit(s, j1, "/f/") {
        None => {
            proof {
                text::lemma_lit_at_strip(s@, j1 as int, "/f/"@);
            }
            return None;
        },
        Some(j) => {
            proof {
                text::lemma_lit_at_strip(s@, j1 as int, "/f/"@);
            }
            j
        },
    };
    let h = text::run_len(s, j2, text::CharKind::HexLowerDash);
    proof {
        text::lemma_skip_skip(s@, j2 as int, h as int);
    }
    if h == 0 {
        return None;
    }
    let j3 = match text::match_lit(s, j2 + h, "/") {
        None => {
            proof {
                text::lemma_lit_at_strip(s@, j2 + h as int, "/"@);
            }
            return None;
        },
        Some(j) => {
            proof {
                text::lemma_lit_at_strip(s@, j2 + h as int, "/"@);
            }
            j
        },
    };
    let m = text::run_len(s, j3, text::CharKind::AlnumLowerDash);
    proof {
        text::lemma_skip_skip(s@, j3 as int, m as int);
    }
    if m == 0 {
        return None;
    }
    let j4 = match text::match_lit(s, j3 + m, ".jpg/v1/fill/w_") {
        None => {
            proof {
                text::lemma_lit_at_strip(s@, j3 + m as int, ".jpg/v1/fill/w_"@);
            }
            return None;
        },
        Some(j) => {
            proof {
                text::lemma_lit_at_strip(s@, j3 + m as int, ".jpg/v1/fill/w_"@);
            }
            j
        },
    };
    proof {
        assert(text::kind_pred(text::CharKind::Digit) == (|c: char| text::is_digit(c)));
    }
    let w = text::run_len(s, j4, text::CharKind::Digit);
    proof {
        text::lemma_skip_skip(s@, j4 as int, w as int);
    }
    if w == 0 {
        return None;
    }
    let j5 = match text::match_lit(s, j4 + w, ",h_") {
        None => {
            proof {
                text::lemma_lit_at_strip(s@, j4 + w as int, ",h_"@);
            }
            return None;
        },
        Some(j) => {
            proof {
                text::lemma_lit_at_strip(s@, j4 + w as int, ",h_"@);
            }
            j
        },
    };
    let hh = text::run_len(s, j5, text::CharKind::Digit);
    proof {
        text::lemma_skip_skip(s@, j5 as int, hh as int);
    }
    if hh == 0 {
        return None;
    }
    let j6 = match text::match_lit(s, j5 + hh, ",q_") {
        None => {
            proof {
                text::lemma_lit_at_strip(s@, j5 + hh as int, ",q_"@);
            }
            return None;
        },
        Some(j) => {
            proof {
                text::lemma_lit_at_strip(s@, j5 + hh as int, ",q_"@);
            }
            j
        },
    };
    let q = text::run_len(s, j6, text::CharKind::Digit);
    proof {
        text::lemma_skip_skip(s@, j6 as int, q as int);
    }
    if q == 0 {
        return None;
    }
    let j7 = match text::match_lit(s, j6 + q, ",") {
        None => {
            proof {
                text::lemma_lit_at_strip(s@, j6 + q as int, ","@);
            }
            return None;
        },
        Some(j) => {
            proof {
                text::lemma_lit_at_strip(s@, j6 + q as int, ","@);
            }
            j
        },
    };
    let al = text::run_len(s, j7, text::CharKind::LowerAlpha);
    proof {
        text::lemma_skip_skip(s@, j7 as int, al as int);
    }
    if al == 0 {
        return None;
    }
    let j8 = match text::match_lit(s, j7 + al, "\\/") {
        None => {
            proof {
                text::lemma_lit_at_strip(s@, j7 + al as int, "\\/"@);
            }
            return None;
        },
        Some(j) => {
            proof {
                text::lemma_lit_at_strip(s@, j7 + al as int, "\\/"@);
            }
            j
        },
    };
    let nm = text::run_len(s, j8, text::CharKind::LowerSixUnderDash);
    proof {
        text::lemma_skip_skip(s@, j8 as int, nm as int);
    }
    if nm == 0 {
        return None;
    }
    let e1 = text::starts_with_at(s, j8 + nm, ".jpeg");
    let e2 = text::starts_with_at(s, j8 + nm, ".jpg");
    proof {
        text::lemma_lit_at_strip(s@, j8 + nm as int, ".jpeg"@);
        text::lemma_lit_at_strip(s@, j8 + nm as int, ".jpg"@);
    }
    if e1 || e2 {
        Some((j6, q))
    } else {
        None
    }
}

/// The first JPEG match's rewrite, quality raised to 100.
pub fn jpg_upsized(url: &str) -> (r: Option<String>)
    ensures
        match r {
            Some(c) => jpg_rewrite(url@) == Some(c@),
            None => jpg_rewrite(url@) is None,
        },
{
    let ghost f = |a: Seq<char>, b: int| jpg_q_at(a, b) is Some;
    let len = url.unicode_len();
    let mut i: usize = 0;
    while i < len
        invariant
            0 <= i <= len,
            len == url@.len(),
            forall|t: int| 0 <= t < i ==> !#[trigger] f(url@, t),
            f == (|a: Seq<char>, b: int| jpg_q_at(a, b) is Some),
        decreases len - i,
    {
        match jpg_probe(url, i) {
            Some(p) => {
                proof {
                    text::lemma_first_from_found(url@, f, i as int);
                }
                let (qs, ql) = p;
                let mut out = text::substr_copy(url, 0, qs);
                out.append("100");
                let tail = text::substr_copy(url, qs + ql, len);
                out.append(tail.as_str());
                proof {
                    assert(url@.subrange(0, qs as int) =~= url@.take(qs as int));
                    assert(url@.subrange(qs + ql, len as int) =~= url@.skip(qs + ql));
                }
                return Some(out);
            },
            None => {},
        }
        i = i + 1;
    }
    proof {
        reveal_strlit("https://");
        text::lemma_lit_at_strip(url@, len as int, "https://"@);
        assert(!f(url@, len as int));
        text::lemma_first_from_none(url@, f);
    }
    None
}

// ---------------------------------------------------------------------------
// Extraction and the additive strategies
// ---------------------------------------------------------------------------

/// Extracts the page data: the preload image, the canonical source, the
/// artist captured from the source, and the camouflaged image. Gives the
/// camouflage back beside the data, for the later strategies.
pub fn extract_data(config: &crate::config::Configuration, body: &str) -> (r: Result<
    (crate::result::ScrapeResultData, String),
    crate::result::ErrorChain,
>)
    ensures
        da_image_link(body@) is None ==> (r matches Err(ch)
            && crate::result::chain_messages(ch.layers@) == seq!["no image found"@]),
        da_image_link(body@) is Some && da_source_link(body@) is None ==> (r matches Err(ch)
            && crate::result::chain_messages(ch.layers@) == seq!["no source found"@]),
        da_image_link(body@) is Some ==> (da_source_link(body@) matches Some(src) ==> match da_artist(
            src,
        ) {
            None => r matches Err(ch) && crate::result::chain_messages(ch.layers@) == seq![
                "no artist found"@,
            ],
            Some(artist) => {
                let img = da_image_link(body@)->0;
                match crate::urlkit::url_norm(img) {
                    None => r matches Err(ch) && crate::result::chain_messages(ch.layers@)
                        == seq!["could not parse image URL"@],
                    Some(imgnorm) => match crate::camo::camo_result(config, imgnorm) {
                        Result::Err(m) => r matches Err(ch) && crate::result::chain_messages(
                            ch.layers@,
                        ) == seq!["could not camo URL"@, m],
                        Result::Ok(w) => match crate::urlkit::url_norm(src) {
                            None => r matches Err(ch) && crate::result::chain_messages(
                                ch.layers@,
                            ) == seq!["source URL not valid URL"@],
                            Some(srcnorm) => r matches Ok(p) && {
                                &&& p.1@ == w
                                &&& p.0.source_url matches Some(su) && su@ == srcnorm
                                &&& p.0.author_name matches Some(an) && an@ == artist
                                &&& p.0.additional_tags is None
                                &&& p.0.description is None
                                &&& crate::result::image_pairs(p.0.images@) == seq![
                                    (imgnorm, w),
                                ]
                            },
                        },
                    },
                }
            },
        }),
{
    let image = match find_image_link(body) {
        None => {
            return Err(single_message("no image found"));
        },
        Some(v) => v,
    };
    let source = match find_source_link(body) {
        None => {
            return Err(single_message("no source found"));
        },
        Some(v) => v,
    };
    let artist = match find_artist(source.as_str()) {
        None => {
            return Err(single_message("no artist found"));
        },
        Some(v) => v,
    };
    let imgnorm = match crate::urlkit::parse_url(image.as_str()) {
        None => {
            return Err(single_message("could not parse image URL"));
        },
        Some(p) => p.serial,
    };
    let camo = match crate::camo::camo_url(config, imgnorm.as_str()) {
        Err(m) => {
            let ch = crate::result::ErrorChain::message(m).wrap(
                String::from_str("could not camo URL"),
            );
            proof {
                crate::result::lemma_two_layer_messages(ch);
            }
            return Err(ch);
        },
        Ok(w) => w,
    };
    let srcnorm = match crate::urlkit::parse_url(source.as_str()) {
        None => {
            return Err(single_message("source URL not valid URL"));
        },
        Some(p) => p.serial,
    };
    let ghost inorm = imgnorm@;
    let ghost wv = camo@;
    let mut images: Vec<crate::result::ScrapeImage> = Vec::new();
    images.push(crate::result::ScrapeImage { url: imgnorm, camo_url: camo.clone() });
    proof {
        assert(crate::result::image_pairs(images@) =~= seq![(inorm, wv)]);
    }
    Ok(
        (
            crate::result::ScrapeResultData {
                source_url: Some(srcnorm),
                author_name: Some(artist),
                additional_tags: None,
                description: None,
                images,
            },
            camo,
        ),
    )
}

/// A fresh single-message readable chain.
fn single_message(m: &str) -> (r: crate::result::ErrorChain)
    ensures
        crate::result::chain_messages(r.layers@) == seq![m@],
{
    let ch = crate::result::ErrorChain::message(String::from_str(m));
    proof {
        crate::result::lemma_chain_messages_single(ch.layers@[0]);
        assert(ch.layers@ =~= seq![ch.layers@[0]]);
    }
    ch
}

/// What the filename-suffix strategy appends for the assets at and
/// after `i`: a copy for each tiered PNG URL, a quality-100 rewrite for
/// each tiered JPEG URL, both validated as URLs.
pub open spec fn new_hires_extra(pairs: Seq<(Seq<char>, Seq<char>)>, i: int) -> Result<
    Seq<(Seq<char>, Seq<char>)>,
    Seq<Seq<char>>,
>
    decreases pairs.len() - i,
{
    if !(0 <= i < pairs.len()) {
        Result::Ok(Seq::empty())
    } else {
        let (u, cam) = pairs[i];
        let png_part: Result<Seq<(Seq<char>, Seq<char>)>, Seq<Seq<char>>> = if png_match(u) {
            match crate::urlkit::url_norm(u) {
                None => Result::Err(seq!["could not parse png url"@]),
                Some(nu) => Result::Ok(seq![(nu, cam)]),
            }
        } else {
            Result::Ok(Seq::empty())
        };
        match png_part {
            Result::Err(e) => Result::Err(e),
            Result::Ok(pp) => {
                let jpg_part: Result<Seq<(Seq<char>, Seq<char>)>, Seq<Seq<char>>> = match jpg_rewrite(
                    u,
                ) {
                    None => Result::Ok(Seq::empty()),
                    Some(rw) => match crate::urlkit::url_norm(rw) {
                        None => Result::Err(seq!["could not parse jpeg url"@]),
                        Some(nrw) => Result::Ok(seq![(nrw, cam)]),
                    },
                };
                match jpg_part {
                    Result::Err(e) => Result::Err(e),
                    Result::Ok(jp) => match new_hires_extra(pairs, i + 1) {
                        Result::Err(e) => Result::Err(e),
                        Result::Ok(t) => Result::Ok(pp + jp + t),
                    },
                }
            },
        }
    }
}

/// The filename-suffix strategy: appends the tier rewrites of every
/// asset to the list, never replacing anything.
pub fn try_new_hires(images: Vec<crate::result::ScrapeImage>) -> (r: Result<
    Vec<crate::result::ScrapeImage>,
    crate::result::ErrorChain,
>)
    ensures
        match r {
            Ok(out) => new_hires_extra(crate::result::image_pairs(images@), 0) matches Ok(extra)
                && crate::result::image_pairs(out@) == crate::result::image_pairs(images@)
                + extra,
            Err(ch) => new_hires_extra(crate::result::image_pairs(images@), 0) matches Err(msgs)
                && crate::result::chain_messages(ch.layers@) == msgs,
        },
{
    let ghost pairs = crate::result::image_pairs(images@);
    let mut extra: Vec<crate::result::ScrapeImage> = Vec::new();
    let mut i: usize = 0;
    proof {
        assert(crate::result::image_pairs(extra@) =~= Seq::<(Seq<char>, Seq<char>)>::empty());
    }
    while i < images.len()
        invariant
            0 <= i <= images@.len(),
            pairs == crate::result::image_pairs(images@),
            pairs.len() == images@.len(),
            new_hires_extra(pairs, i as int) matches Ok(tail) ==> (new_hires_extra(pairs, 0)
                matches Ok(all) && crate::result::image_pairs(extra@) + tail == all),
            new_hires_extra(pairs, i as int) matches Err(e) ==> (new_hires_extra(pairs, 0)
                matches Err(e2) && e == e2),
        decreases images@.len() - i,
    {
        let ghost here = new_hires_extra(pairs, i as int);
        let ghost next = new_hires_extra(pairs, i as int + 1);
        let ghost prevp = crate::result::image_pairs(extra@);
        let u = &images[i].url;
        let cam = &images[i].camo_url;
        proof {
            assert(pairs[i as int] == (u@, cam@));
        }
        let mut step: Vec<crate::result::ScrapeImage> = Vec::new();
        if has_png_shape(u.as_str()) {
            match crate::urlkit::parse_url(u.as_str()) {
                None => {
                    let ch = single_message("could not parse png url");
                    proof {
                        assert(here matches Err(e) && e == seq!["could not parse png url"@]);
                    }
                    return Err(ch);
                },
                Some(p) => {
                    step.push(
                        crate::result::ScrapeImage { url: p.serial, camo_url: cam.clone() },
                    );
                },
            }
        }
        let ghost pnglen = step@.len();
        match jpg_upsized(u.as_str()) {
            None => {},
            Some(rw) => {
                match crate::urlkit::parse_url(rw.as_str()) {
                    None => {
                        let ch = single_message("could not parse jpeg url");
                        proof {
                            assert(here matches Err(e) && e == seq![
                                "could not parse jpeg url"@,
                            ]);
                        }
                        return Err(ch);
                    },
                    Some(p) => {
                        step.push(
                            crate::result::ScrapeImage { url: p.serial, camo_url: cam.clone() },
                        );
                    },
                }
            },
        }
        let mut k: usize = 0;
        while k < step.len()
            invariant
                0 <= k <= step@.len(),
                crate::result::image_pairs(extra@) == prevp + crate::result::image_pairs(
                    step@.take(k as int),
                ),
            decreases step@.len() - k,
        {
            let ghost before = crate::result::image_pairs(extra@);
            extra.push(
                crate::result::ScrapeImage {
                    url: step[k].url.clone(),
                    camo_url: step[k].camo_url.clone(),
                },
            );
            proof {
                assert(crate::result::image_pairs(extra@) =~= before + seq![
                    (step@[k as int].url@, step@[k as int].camo_url@),
                ]);
                assert(crate::result::image_pairs(step@.take(k as int + 1))
                    =~= crate::result::image_pairs(step@.take(k as int)) + seq![
                    (step@[k as int].url@, step@[k as int].camo_url@),
                ]);
                assert(before + (crate::result::image_pairs(step@.take(k as int)) + seq![
                    (step@[k as int].url@, step@[k as int].camo_url@),
                ]) =~= (before + crate::result::image_pairs(step@.take(k as int))) + seq![
                    (step@[k as int].url@, step@[k as int].camo_url@),
                ]);
            }
            k = k + 1;
        }
        proof {
            assert(step@.take(step@.len() as int) =~= step@);
            if next is Ok {
                let tail2 = next->Ok_0;
                assert(here matches Ok(tl) && tl == crate::result::image_pairs(step@) + tail2)
                    by {
                    assert(here matches Ok(tl2) && tl2 == crate::result::image_pairs(
                        step@.take(pnglen as int),
                    ) + crate::result::image_pairs(step@.skip(pnglen as int)) + tail2) by {
                        assert(crate::result::image_pairs(step@.take(pnglen as int))
                            =~= crate::result::image_pairs(step@).take(pnglen as int));
                        assert(crate::result::image_pairs(step@.skip(pnglen as int))
                            =~= crate::result::image_pairs(step@).skip(pnglen as int));
                    }
                    assert(crate::result::image_pairs(step@.take(pnglen as int))
                        + crate::result::image_pairs(step@.skip(pnglen as int))
                        =~= crate::result::image_pairs(step@));
                }
                assert(prevp + (crate::result::image_pairs(step@) + tail2) =~= (prevp
                    + crate::result::image_pairs(step@)) + tail2);
            }
        }
        i = i + 1;
    }
    proof {
        assert(new_hires_extra(pairs, pairs.len() as int) matches Ok(e) && e.len() == 0);
        assert(crate::result::image_pairs(extra@) + Seq::<(Seq<char>, Seq<char>)>::empty()
            =~= crate::result::image_pairs(extra@));
    }
    let mut out = images;
    let ghost base = crate::result::image_pairs(out@);
    let mut k: usize = 0;
    while k < extra.len()
        invariant
            0 <= k <= extra@.len(),
            crate::result::image_pairs(out@) == base + crate::result::image_pairs(
                extra@.take(k as int),
            ),
        decreases extra@.len() - k,
    {
        let ghost before = crate::result::image_pairs(out@);
        out.push(
            crate::result::ScrapeImage {
                url: extra[k].url.clone(),
                camo_url: extra[k].camo_url.clone(),
            },
        );
        proof {
            assert(crate::result::image_pairs(out@) =~= before + seq![
                (extra@[k as int].url@, extra@[k as int].camo_url@),
            ]);
            assert(crate::result::image_pairs(extra@.take(k as int + 1))
                =~= crate::result::image_pairs(extra@.take(k as int)) + seq![
                (extra@[k as int].url@, extra@[k as int].camo_url@),
            ]);
            assert(before + seq![(extra@[k as int].url@, extra@[k as int].camo_url@)] =~= base
                + crate::result::image_pairs(extra@.take(k as int + 1)));
        }
        k = k + 1;
    }
    proof {
        assert(extra@.take(extra@.len() as int) =~= extra@);
    }
    Ok(out)
}

/// The intermediary candidates to probe, one per asset: the rebuilt
/// `/intermediary/` URL of each CDN-shaped asset.
pub fn intermediary_candidates(images: &Vec<crate::result::ScrapeImage>) -> (r: Vec<
    Option<String>,
>)
    ensures
        r@.len() == images@.len(),
        forall|k: int|
            0 <= k < images@.len() ==> match #[trigger] r@[k] {
                Some(c) => cdn_first((#[trigger] images@[k]).url@) == Some(c@),
                None => cdn_first(images@[k].url@) is None,
            },
{
    let mut out: Vec<Option<String>> = Vec::new();
    let mut i: usize = 0;
    while i < images.len()
        invariant
            0 <= i <= images@.len(),
            out@.len() == i,
            forall|k: int|
                0 <= k < i ==> match #[trigger] out@[k] {
                    Some(c) => cdn_first((#[trigger] images@[k]).url@) == Some(c@),
                    None => cdn_first(images@[k].url@) is None,
                },
        decreases images@.len() - i,
    {
        out.push(intermediary_candidate(images[i].url.as_str()));
        i = i + 1;
    }
    out
}

/// What the intermediary strategy appends for the assets at and after
/// `i`: the rebuilt URL of each CDN-shaped asset whose probe answered
/// yes, kept beside the asset's own camouflage.
pub open spec fn intermediary_extra(
    pairs: Seq<(Seq<char>, Seq<char>)>,
    oks: Seq<bool>,
    i: int,
) -> Result<Seq<(Seq<char>, Seq<char>)>, Seq<Seq<char>>>
    decreases pairs.len() - i,
{
    if !(0 <= i < pairs.len()) {
        Result::Ok(Seq::empty())
    } else {
        let (u, cam) = pairs[i];
        match cdn_first(u) {
            None => intermediary_extra(pairs, oks, i + 1),
            Some(b) => match crate::urlkit::url_norm(b) {
                None => Result::Err(seq!["invalid intermediary URL"@]),
                Some(nb) => match intermediary_extra(pairs, oks, i + 1) {
                    Result::Err(e) => Result::Err(e),
                    Result::Ok(t) => if oks[i] {
                        Result::Ok(seq![(nb, cam)] + t)
                    } else {
                        Result::Ok(t)
                    },
                },
            },
        }
    }
}

/// The intermediary strategy: appends the probed `/intermediary/` URLs
/// that exist upstream.
pub fn try_intermediary_hires(
    images: Vec<crate::result::ScrapeImage>,
    oks: &Vec<bool>,
) -> (r: Result<Vec<crate::result::ScrapeImage>, crate::result::ErrorChain>)
    requires
        oks@.len() == images@.len(),
    ensures
        match r {
            Ok(out) => intermediary_extra(crate::result::image_pairs(images@), oks@, 0)
                matches Ok(extra) && crate::result::image_pairs(out@)
                == crate::result::image_pairs(images@) + extra,
            Err(ch) => intermediary_extra(crate::result::image_pairs(images@), oks@, 0)
                matches Err(msgs) && crate::result::chain_messages(ch.layers@) == msgs,
        },
{
    let ghost pairs = crate::result::image_pairs(images@);
    let mut extra: Vec<crate::result::ScrapeImage> = Vec::new();
    let mut i: usize = 0;
    proof {
        assert(crate::result::image_pairs(extra@) =~= Seq::<(Seq<char>, Seq<char>)>::empty());
    }
    while i < images.len()
        invariant
            0 <= i <= images@.len(),
            pairs == crate::result::image_pairs(images@),
            pairs.len() == images@.len(),
            oks@.len() == images@.len(),
            intermediary_extra(pairs, oks@, i as int) matches Ok(tail) ==> (intermediary_extra(
                pairs,
                oks@,
                0,
            ) matches Ok(all) && crate::result::image_pairs(extra@) + tail == all),
            intermediary_extra(pairs, oks@, i as int) matches Err(e) ==> (intermediary_extra(
                pairs,
                oks@,
                0,
            ) matches Err(e2) && e == e2),
        decreases images@.len() - i,
    {
        let ghost here = intermediary_extra(pairs, oks@, i as int);
        let ghost next = intermediary_extra(pairs, oks@, i as int + 1);
        let ghost prevp = crate::result::image_pairs(extra@);
        let u = &images[i].url;
        let cam = &images[i].camo_url;
        proof {
            assert(pairs[i as int] == (u@, cam@));
        }
        match intermediary_candidate(u.as_str()) {
            None => {
                proof {
                    assert(here == next);
                }
            },
            Some(b) => {
                match crate::urlkit::parse_url(b.as_str()) {
                    None => {
                        let ch = single_message("invalid intermediary URL");
                        proof {
                            assert(here matches Err(e) && e == seq![
                                "invalid intermediary URL"@,
                            ]);
                        }
                        return Err(ch);
                    },
                    Some(p) => {
                        if oks[i] {
                            let ghost nb = p.serial@;
                            extra.push(
                                crate::result::ScrapeImage {
                                    url: p.serial,
                                    camo_url: cam.clone(),
                                },
                            );
                            proof {
                                assert(crate::result::image_pairs(extra@) =~= prevp + seq![
                                    (nb, cam@),
                                ]);
                                if next is Ok {
                                    let tail2 = next->Ok_0;
                                    assert(here matches Ok(tl) && tl == seq![(nb, cam@)]
                                        + tail2);
                                    assert(prevp + (seq![(nb, cam@)] + tail2) =~= (prevp + seq![
                                        (nb, cam@),
                                    ]) + tail2);
                                }
                            }
                        } else {
                            proof {
                                if next is Ok {
                                    assert(here == next);
                                }
                            }
                        }
                    },
                }
            },
        }
        i = i + 1;
    }
    proof {
        assert(intermediary_extra(pairs, oks@, pairs.len() as int) matches Ok(e) && e.len()
            == 0);
        assert(crate::result::image_pairs(extra@) + Seq::<(Seq<char>, Seq<char>)>::empty()
            =~= crate::result::image_pairs(extra@));
    }
    let mut out = images;
    let ghost base = crate::result::image_pairs(out@);
    let mut k: usize = 0;
    while k < extra.len()
        invariant
            0 <= k <= extra@.len(),
            crate::result::image_pairs(out@) == base + crate::result::image_pairs(
                extra@.take(k as int),
            ),
        decreases extra@.len() - k,
    {
        let ghost before = crate::result::image_pairs(out@);
        out.push(
            crate::result::ScrapeImage {
                url: extra[k].url.clone(),
                camo_url: extra[k].camo_url.clone(),
            },
        );
        proof {
            assert(crate::result::image_pairs(out@) =~= before + seq![
                (extra@[k as int].url@, extra@[k as int].camo_url@),
            ]);
            assert(crate::result::image_pairs(extra@.take(k as int + 1))
                =~= crate::result::image_pairs(extra@.take(k as int)) + seq![
                (extra@[k as int].url@, extra@[k as int].camo_url@),
            ]);
            assert(before + seq![(extra@[k as int].url@, extra@[k as int].camo_url@)] =~= base
                + crate::result::image_pairs(extra@.take(k as int + 1)));
        }
        k = k + 1;
    }
    proof {
        assert(extra@.take(extra@.len() as int) =~= extra@);
    }
    Ok(out)
}

/// The legacy hi-res guess: the serial of the source URL rendered in
/// base 36 inside the historical original-asset URL.
pub fn old_hires_url(source: &str) -> (r: Result<String, crate::result::ErrorChain>)
    ensures
        match r {
            Ok(u) => da_serial(source@) matches Some(v) && crate::digits::dec_val(v)
                <= crate::digits::dec_limit() && u@ == "http://orig01.deviantart.net/x_by_x-d"@
                + crate::digits::base36(crate::digits::dec_val(v)) + ".png"@,
            Err(ch) => {
                ||| (da_serial(source@) is None && crate::result::chain_messages(ch.layers@)
                    == seq!["no serial captured"@])
                ||| (da_serial(source@) matches Some(v) && crate::digits::dec_val(v)
                    > crate::digits::dec_limit() && crate::result::chain_messages(ch.layers@)
                    == seq!["integer could not be parsed"@])
            },
        },
{
    let serial = match find_serial(source) {
        None => {
            return Err(single_message("no serial captured"));
        },
        Some(v) => v,
    };
    let s = serial.as_str();
    let len = s.unicode_len();
    let d = text::run_len(s, 0, text::CharKind::Digit);
    proof {
        assert(text::kind_pred(text::CharKind::Digit) == (|c: char| text::is_digit(c)));
        assert(s@.skip(0) =~= s@);
        lemma_serial_digits(source@, s@);
        text::lemma_prefix_len_props(s@, |c: char| text::is_digit(c));
    }
    let value = match crate::digits::dec_parse(s, 0, len) {
        None => {
            proof {
                assert(s@.subrange(0, len as int) =~= s@);
            }
            return Err(single_message("integer could not be parsed"));
        },
        Some(v) => v,
    };
    proof {
        assert(s@.subrange(0, len as int) =~= s@);
    }
    let mut out = String::from_str("http://orig01.deviantart.net/x_by_x-d");
    out.append(crate::digits::base36_str(value).as_str());
    out.append(".png");
    Ok(out)
}

/// A captured serial consists of digits only.
proof fn lemma_serial_digits(source: Seq<char>, v: Seq<char>)
    requires
        da_serial(source) == Some(v),
    ensures
        forall|k: int| 0 <= k < v.len() ==> text::is_digit(v[k]),
{
    let fd = |a: Seq<char>, b: int| serial_dash_at(a, b);
    let fpre = |a: Seq<char>, b: int| text::lit_at(a, b, "https://www.deviantart.com/"@);
    let i = text::first_from(source, fpre, 0)->0;
    let j = text::first_from(source, fd, i + "https://www.deviantart.com/"@.len())->0;
    lemma_first_from_holds(source, fd, i + "https://www.deviantart.com/"@.len());
    assert(serial_dash_at(source, j));
    text::lemma_prefix_len_props(source.skip(j + 1), |c: char| text::is_digit(c));
    assert(v =~= source.skip(j + 1));
}

/// The position `first_from` finds satisfies the predicate.
proof fn lemma_first_from_holds(s: Seq<char>, f: spec_fn(Seq<char>, int) -> bool, b: int)
    ensures
        text::first_from(s, f, b) matches Some(i) ==> f(s, i) && b <= i <= s.len(),
    decreases s.len() - b + 1,
{
    if 0 <= b <= s.len() && !f(s, b) && b < s.len() {
        lemma_first_from_holds(s, f, b + 1);
    }
}

/// The redirect strategy's append: the redirect target of the legacy
/// guess, normalized, beside the page camouflage.
pub fn apply_old_hires(
    images: Vec<crate::result::ScrapeImage>,
    camo: &str,
    location: Option<&String>,
) -> (r: Result<Vec<crate::result::ScrapeImage>, crate::result::ErrorChain>)
    ensures
        match r {
            Ok(out) => match location {
                None => crate::result::image_pairs(out@) == crate::result::image_pairs(
                    images@,
                ),
                Some(loc) => crate::urlkit::url_norm(loc@) matches Some(n)
                    && crate::result::image_pairs(out@) == crate::result::image_pairs(images@)
                    + seq![(n, camo@)],
            },
            Err(ch) => location matches Some(loc) && crate::urlkit::url_norm(loc@) is None
                && crate::result::chain_messages(ch.layers@) == seq![
                "new old_hires location is not valid URL"@,
            ],
        },
{
    let loc = match location {
        None => {
            return Ok(images);
        },
        Some(l) => l,
    };
    let n = match crate::urlkit::parse_url(loc.as_str()) {
        None => {
            return Err(single_message("new old_hires location is not valid URL"));
        },
        Some(p) => p.serial,
    };
    let ghost base = crate::result::image_pairs(images@);
    let ghost nv = n@;
    let mut out = images;
    out.push(crate::result::ScrapeImage { url: n, camo_url: String::from_str(camo) });
    proof {
        assert(crate::result::image_pairs(out@) =~= base + seq![(nv, camo@)]);
    }
    Ok(out)
}

/// Replaces the page data's images with the strategies' final list and
/// wraps it as a successful scrape.
pub fn deviantart_finalize(
    data: crate::result::ScrapeResultData,
    images: Vec<crate::result::ScrapeImage>,
) -> (r: Option<crate::result::ScrapeResult>)
    ensures
        r matches Some(sr) && sr matches crate::result::ScrapeResult::Found(d) && {
            &&& d.source_url == data.source_url
            &&& d.author_name == data.author_name
            &&& d.additional_tags == data.additional_tags
            &&& d.description == data.description
            &&& d.images == images
        },
{
    Some(
        crate::result::ScrapeResult::Found(
            crate::result::ScrapeResultData {
                source_url: data.source_url,
                author_name: data.author_name,
                additional_tags: data.additional_tags,
                description: data.description,
                images,
            },
        ),
    )
}

} // verus!
