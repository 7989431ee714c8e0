//! The blog-platform backend: post-URL recognition with the greedy host
//! split, the platform-owned network ranges, the metadata-API request,
//! and the speculative upsizing of photo assets.
use vstd::prelude::*;

use crate::result::ErrorChain;
use crate::text;
use crate::urlkit::UrlParts;

verus! {

/// A post marker at position `i` of `s`: `/image/` or `/post/` followed
/// by at least one digit.
pub open spec fn post_marker_at(s: Seq<char>, i: int) -> bool {
    0 <= i <= s.len() && ((match text::strip_lit(s.skip(i), "/image/"@) {
        None => false,
        Some(r) => text::prefix_len(r, |c: char| text::is_digit(c)) > 0,
    }) || (match text::strip_lit(s.skip(i), "/post/"@) {
        None => false,
        Some(r) => text::prefix_len(r, |c: char| text::is_digit(c)) > 0,
    }))
}

/// The digits captured at a post marker.
pub open spec fn post_id_at(s: Seq<char>, i: int) -> Seq<char> {
    match text::strip_lit(s.skip(i), "/image/"@) {
        Some(r) => if text::prefix_len(r, |c: char| text::is_digit(c)) > 0 {
            r.take(text::prefix_len(r, |c: char| text::is_digit(c)))
        } else {
            post_id_after(s, i, "/post/"@)
        },
        None => post_id_after(s, i, "/post/"@),
    }
}

/// The digits after one concrete marker literal.
pub open spec fn post_id_after(s: Seq<char>, i: int, lit: Seq<char>) -> Seq<char> {
    match text::strip_lit(s.skip(i), lit) {
        Some(r) => r.take(text::prefix_len(r, |c: char| text::is_digit(c))),
        None => Seq::empty(),
    }
}

/// The post id of a blog URL: a scheme, then the digits at the last post
/// marker — the greedy split, since the host part may itself contain
/// slashes.
pub open spec fn tumblr_id(s: Seq<char>) -> Option<Seq<char>> {
    match text::strip_scheme(s) {
        None => None,
        Some(r0) => {
            let base = s.len() - r0.len();
            match text::last_below(
                s,
                |a: Seq<char>, b: int| post_marker_at(a, b),
                base,
                s.len() as int,
            ) {
                None => None,
                Some(i) => Some(post_id_at(s, i)),
            }
        },
    }
}

/// Tests for a post marker at one position.
fn post_marker_probe(s: &str, i: usize) -> (r: bool)
    requires
        i <= s@.len(),
    ensures
        r == post_marker_at(s@, i as int),
{
    let first = match text::match_lit(s, i, "/image/") {
        Some(j) => {
            proof {
                text::lemma_lit_at_strip(s@, i as int, "/image/"@);
            }
            let d = text::run_len(s, j, text::CharKind::Digit);
            proof {
                assert(text::kind_pred(text::CharKind::Digit) == (|c: char| text::is_digit(c)));
            }
            d > 0
        },
        None => {
            proof {
                text::lemma_lit_at_strip(s@, i as int, "/image/"@);
            }
            false
        },
    };
    if first {
        return true;
    }
    match text::match_lit(s, i, "/post/") {
        Some(j) => {
            proof {
                text::lemma_lit_at_strip(s@, i as int, "/post/"@);
            }
            let d = text::run_len(s, j, text::CharKind::Digit);
            proof {
                assert(text::kind_pred(text::CharKind::Digit) == (|c: char| text::is_digit(c)));
            }
            d > 0
        },
        None => {
            proof {
                text::lemma_lit_at_strip(s@, i as int, "/post/"@);
            }
            false
        },
    }
}

/// Captures the post id of a blog URL.
pub fn tumblr_post_id(url: &str) -> (r: Option<String>)
    ensures
        match r {
            Some(id) => tumblr_id(url@) matches Some(v) && id@ == v,
            None => tumblr_id(url@) is None,
        },
{
    let len = url.unicode_len();
    let ghost f = |a: Seq<char>, b: int| post_marker_at(a, b);
    let i1 = match text::match_scheme(url) {
        None => {
            return None;
        },
        Some(j) => j,
    };
    let mut j = i1;
    let mut found: Option<usize> = None;
    while j < len
        invariant
            i1 <= j <= len,
            len == url@.len(),
            match found {
                None => forall|t: int| i1 <= t < j ==> !#[trigger] f(url@, t),
                Some(ft) => i1 <= ft < j && f(url@, ft as int) && (forall|t: int|
                    ft < t < j ==> !#[trigger] f(url@, t)),
            },
            f == (|a: Seq<char>, b: int| post_marker_at(a, b)),
        decreases len - j,
    {
        if post_marker_probe(url, j) {
            found = Some(j);
        }
        j = j + 1;
    }
    proof {
        reveal_strlit("/image/");
        reveal_strlit("/post/");
        text::lemma_lit_at_strip(url@, len as int, "/image/"@);
        text::lemma_lit_at_strip(url@, len as int, "/post/"@);
        assert(!f(url@, len as int));
    }
    match found {
        None => {
            proof {
                text::lemma_last_below_none(url@, f, i1 as int, len as int);
            }
            None
        },
        Some(ft) => {
            proof {
                text::lemma_last_below_found(url@, f, i1 as int, ft as int, len as int);
                reveal_strlit("/image/");
                reveal_strlit("/post/");
            }
            let id = match text::match_lit(url, ft, "/image/") {
                Some(j2) => {
                    proof {
                        text::lemma_lit_at_strip(url@, ft as int, "/image/"@);
                    }
                    let d = text::run_len(url, j2, text::CharKind::Digit);
                    proof {
                        assert(text::kind_pred(text::CharKind::Digit) == (
                        |c: char| text::is_digit(c)));
                        text::lemma_skip_take(url@, j2 as int, d as int);
                    }
                    text::substr_copy(url, j2, j2 + d)
                },
                None => {
                    proof {
                        text::lemma_lit_at_strip(url@, ft as int, "/image/"@);
                    }
                    match text::match_lit(url, ft, "/post/") {
                        Some(j2) => {
                            proof {
                                text::lemma_lit_at_strip(url@, ft as int, "/post/"@);
                            }
                            let d = text::run_len(url, j2, text::CharKind::Digit);
                            proof {
                                assert(text::kind_pred(text::CharKind::Digit) == (
                                |c: char| text::is_digit(c)));
                                text::lemma_skip_take(url@, j2 as int, d as int);
                            }
                            text::substr_copy(url, j2, j2 + d)
                        },
                        None => {
                            proof {
                                text::lemma_lit_at_strip(url@, ft as int, "/post/"@);
                                assert(!f(url@, ft as int));
                            }
                            // the marker guaranteed one of the two literals
                            String::new()
                        },
                    }
                },
            };
            Some(id)
        },
    }
}

/// Classifies by the URL shape alone (the host-resolution fallback is a
/// separate step).
pub fn is_tumblr_url(url: &str) -> (r: bool)
    ensures
        r == (tumblr_id(url@) is Some),
{
    tumblr_post_id(url).is_some()
}

// ---------------------------------------------------------------------------
// Platform-owned network ranges
// ---------------------------------------------------------------------------

/// Membership of an IPv4 address (as a 32-bit value) in the fixed
/// platform-owned ranges, each a block of 256 addresses.
pub open spec fn tumblr_net(a: u32) -> bool {
    a / 256 == 4326944 || a / 256 == 4326945 || a / 256 == 4326956 || a / 256 == 4879000 || a / 256
        == 4879001 || a / 256 == 4879002 || a / 256 == 4879003
}

/// Whether any resolved address (IPv4 ones carry a value, others none)
/// lies in the platform-owned ranges.
pub fn tumblr_addrs_match(addrs: &Vec<Option<u32>>) -> (r: bool)
    ensures
        r == exists|i: int|
            0 <= i < addrs@.len() && ((#[trigger] addrs@[i]) matches Some(a) && tumblr_net(a)),
{
    let mut i: usize = 0;
    while i < addrs.len()
        invariant
            0 <= i <= addrs@.len(),
            forall|t: int|
                0 <= t < i ==> !(#[trigger] addrs@[t] matches Some(a) && tumblr_net(a)),
        decreases addrs@.len() - i,
    {
        match addrs[i] {
            Some(a) => {
                let p = a / 256;
                if p == 4326944 || p == 4326945 || p == 4326956 || p == 4879000 || p == 4879001
                    || p == 4879002 || p == 4879003 {
                    return true;
                }
            },
            None => {},
        }
        i = i + 1;
    }
    false
}

/// Classifies a blog URL: the URL shape decides alone when it matches;
/// otherwise the host's resolved addresses are consulted, and a failed
/// resolution is an operational classification failure.
pub fn is_tumblr(parts: &UrlParts, dns: &Result<Vec<Option<u32>>, String>) -> (r: Result<
    bool,
    ErrorChain,
>)
    ensures
        tumblr_id(parts.serial@) is Some ==> r == Result::<bool, ErrorChain>::Ok(true),
        tumblr_id(parts.serial@) is None && parts.host is None ==> r == Result::<
            bool,
            ErrorChain,
        >::Ok(false),
        tumblr_id(parts.serial@) is None && parts.host is Some ==> (dns matches Err(e) ==> (
        r matches Err(ch) && crate::result::chain_messages(ch.layers@) == seq![e@])),
        tumblr_id(parts.serial@) is None && parts.host is Some ==> (dns matches Ok(addrs) ==> r
            == Result::<bool, ErrorChain>::Ok(
            exists|i: int|
                0 <= i < addrs@.len() && ((#[trigger] addrs@[i]) matches Some(a) && tumblr_net(a)),
        )),
{
    if is_tumblr_url(parts.serial.as_str()) {
        return Ok(true);
    }
    match &parts.host {
        None => Ok(false),
        Some(_) => match dns {
            Err(e) => {
                let ch = ErrorChain::message(e.clone());
                proof {
                    crate::result::lemma_chain_messages_single(ch.layers@[0]);
                    assert(ch.layers@ =~= seq![ch.layers@[0]]);
                }
                Err(ch)
            },
            Ok(addrs) => Ok(tumblr_addrs_match(addrs)),
        },
    }
}

// ---------------------------------------------------------------------------
// The metadata API request
// ---------------------------------------------------------------------------

/// The metadata API URL for a post on a given blog host; the credential
/// is blank when none is configured.
pub open spec fn api_url_of(host: Seq<char>, post_id: Seq<char>, key: Seq<char>) -> Seq<char> {
    "https://api.tumblr.com/v2/blog/"@ + host + "/posts/photo?id="@ + post_id + "&api_key="@ + key
}

/// Builds the metadata API URL for a post.
pub fn tumblr_api_url(host: &str, post_id: &str, api_key: Option<&String>) -> (r: String)
    ensures
        r@ == api_url_of(
            host@,
            post_id@,
            match api_key {
                Some(k) => k@,
                None => Seq::empty(),
            },
        ),
{
    let mut out = String::from_str("https://api.tumblr.com/v2/blog/");
    out.append(host);
    out.append("/posts/photo?id=");
    out.append(post_id);
    out.append("&api_key=");
    match api_key {
        Some(k) => {
            out.append(k.as_str());
        },
        None => {
            proof {
                assert(out@ + Seq::<char>::empty() =~= out@);
            }
        },
    }
    out
}

// ---------------------------------------------------------------------------
// Speculative upsizing
// ---------------------------------------------------------------------------

/// A size marker at position `i` of `s`: an underscore, a non-empty
/// digit run, then a dot with at least one character after it, running
/// to the end of the URL.
pub open spec fn size_marker_at(s: Seq<char>, i: int) -> bool {
    0 <= i < s.len() && s[i] == '_' && {
        let d = text::prefix_len(s.skip(i + 1), |c: char| text::is_digit(c));
        d > 0 && i + 1 + d + 1 < s.len() && s[i + 1 + d] == '.'
    }
}

/// `s` with the digits of its first size marker replaced by `size`; `s`
/// itself when it carries no marker.
pub open spec fn resized(s: Seq<char>, size: Seq<char>) -> Seq<char> {
    match text::first_from(s, |a: Seq<char>, b: int| size_marker_at(a, b), 0) {
        None => s,
        Some(i) => s.take(i + 1) + size + s.skip(
            i + 1 + text::prefix_len(s.skip(i + 1), |c: char| text::is_digit(c)),
        ),
    }
}

/// Tests for a size marker at one position.
fn size_marker_probe(s: &str, i: usize) -> (r: bool)
    requires
        i <= s@.len(),
    ensures
        r == size_marker_at(s@, i as int),
{
    let len = s.unicode_len();
    if i >= len {
        return false;
    }
    if s.get_char(i) != '_' {
        return false;
    }
    let d = text::run_len(s, i + 1, text::CharKind::Digit);
    proof {
        assert(text::kind_pred(text::CharKind::Digit) == (|c: char| text::is_digit(c)));
    }
    if d == 0 {
        return false;
    }
    if i + 1 + d >= len - 1 {
        return false;
    }
    s.get_char(i + 1 + d) == '.'
}

/// Rewrites the first size marker of `s` to the given size name.
pub fn resize_url(s: &str, size: &str) -> (r: String)
    ensures
        r@ == resized(s@, size@),
{
    let ghost f = |a: Seq<char>, b: int| size_marker_at(a, b);
    let len = s.unicode_len();
    let mut i: usize = 0;
    while i < len
        invariant
            0 <= i <= len,
            len == s@.len(),
            forall|t: int| 0 <= t < i ==> !#[trigger] f(s@, t),
            f == (|a: Seq<char>, b: int| size_marker_at(a, b)),
        decreases len - i,
    {
        if size_marker_probe(s, i) {
            proof {
                text::lemma_first_from_found(s@, f, i as int);
            }
            let d = text::run_len(s, i + 1, text::CharKind::Digit);
            proof {
                assert(text::kind_pred(text::CharKind::Digit) == (|c: char| text::is_digit(c)));
            }
            let mut out = text::substr_copy(s, 0, i + 1);
            out.append(size);
            let tail = text::substr_copy(s, i + 1 + d, len);
            out.append(tail.as_str());
            proof {
                assert(s@.subrange(0, i + 1) =~= s@.take(i + 1 as int));
                assert(s@.subrange(i + 1 + d, len as int) =~= s@.skip(i + 1 + d));
            }
            return out;
        }
        i = i + 1;
    }
    proof {
        assert(!f(s@, len as int));
        text::lemma_first_from_none(s@, f);
    }
    String::from_str(s)
}

/// The size tiers tried, largest first.
pub open spec fn size_name(k: int) -> Seq<char> {
    if k == 0 {
        "1280"@
    } else if k == 1 {
        "540"@
    } else if k == 2 {
        "500"@
    } else if k == 3 {
        "400"@
    } else if k == 4 {
        "250"@
    } else if k == 5 {
        "100"@
    } else {
        "75"@
    }
}

/// How many size tiers there are.
pub open spec fn size_count() -> int {
    7
}

/// The candidate URLs of one asset, one per size tier, largest first.
pub fn upsize_candidates(image_url: &str) -> (r: Vec<String>)
    ensures
        r@.len() == size_count(),
        forall|k: int| 0 <= k < size_count() ==> (#[trigger] r@[k])@ == resized(
            image_url@,
            size_name(k),
        ),
{
    let mut out: Vec<String> = Vec::new();
    out.push(resize_url(image_url, "1280"));
    out.push(resize_url(image_url, "540"));
    out.push(resize_url(image_url, "500"));
    out.push(resize_url(image_url, "400"));
    out.push(resize_url(image_url, "250"));
    out.push(resize_url(image_url, "100"));
    out.push(resize_url(image_url, "75"));
    out
}

/// The first candidate whose probe answered yes: the largest tier that
/// exists upstream.
pub fn pick_upsized(candidates: &Vec<String>, oks: &Vec<bool>) -> (r: Option<String>)
    requires
        candidates@.len() == oks@.len(),
    ensures
        match r {
            Some(u) => first_true(oks@, 0) matches Some(k) && u@ == (candidates@[k])@,
            None => first_true(oks@, 0) is None,
        },
{
    let mut k: usize = 0;
    while k < oks.len()
        invariant
            0 <= k <= oks@.len(),
            candidates@.len() == oks@.len(),
            forall|t: int| 0 <= t < k ==> !oks@[t],
        decreases oks@.len() - k,
    {
        if oks[k] {
            proof {
                lemma_first_true_found(oks@, k as int);
            }
            return Some(candidates[k].clone());
        }
        k = k + 1;
    }
    proof {
        lemma_first_true_none(oks@);
    }
    None
}


// ---------------------------------------------------------------------------
// Text posts: the first embedded media URL
// ---------------------------------------------------------------------------

/// Where an embedded media URL ends, when one starts at `i`: a scheme,
/// an optional numeric subdomain, the media host, two hex path segments
/// (the second with a dash), a size segment, and a hex file name with a
/// known image extension.
pub open spec fn media_end(s: Seq<char>, i: int) -> Option<int> {
    if !(0 <= i <= s.len()) {
        None
    } else {
        match text::strip_scheme(s.skip(i)) {
            None => None,
            Some(r0) => {
                let sub = text::prefix_len(r0, |c: char| text::is_digit(c));
                let r1 = if sub > 0 && sub < r0.len() && r0[sub] == '.' {
                    r0.skip(sub + 1)
                } else {
                    r0
                };
                match text::strip_lit(r1, "media.tumblr.com/"@) {
                    None => None,
                    Some(r2) => media_tail(s, r2),
                }
            },
        }
    }
}

/// The tail of a media URL: `hex/hex-hex/sDDxDD/hex.ext`.
pub open spec fn media_tail(s: Seq<char>, r2: Seq<char>) -> Option<int> {
    let h1 = text::prefix_len(r2, |c: char| text::is_hex_lower(c));
    if h1 > 0 && text::strip_lit(r2.skip(h1), "/"@) is Some {
        let r3 = r2.skip(h1 + 1);
        let h2 = text::prefix_len(r3, |c: char| text::is_hex_lower(c));
        if h2 > 0 && text::strip_lit(r3.skip(h2), "-"@) is Some {
            let r4 = r3.skip(h2 + 1);
            let h3 = text::prefix_len(r4, |c: char| text::is_hex_lower(c));
            if h3 > 0 && text::strip_lit(r4.skip(h3), "/s"@) is Some {
                let r5 = r4.skip(h3 + 2);
                let d1 = text::prefix_len(r5, |c: char| text::is_digit(c));
                if d1 > 0 && text::strip_lit(r5.skip(d1), "x"@) is Some {
                    let r6 = r5.skip(d1 + 1);
                    let d2 = text::prefix_len(r6, |c: char| text::is_digit(c));
                    if d2 > 0 && text::strip_lit(r6.skip(d2), "/"@) is Some {
                        let r7 = r6.skip(d2 + 1);
                        let h4 = text::prefix_len(r7, |c: char| text::is_hex_lower(c));
                        if h4 > 0 {
                            let r8 = r7.skip(h4);
                            if text::strip_lit(r8, ".png"@) is Some {
                                Some(s.len() - r8.len() + ".png"@.len())
                            } else if text::strip_lit(r8, ".jpeg"@) is Some {
                                Some(s.len() - r8.len() + ".jpeg"@.len())
                            } else if text::strip_lit(r8, ".jpg"@) is Some {
                                Some(s.len() - r8.len() + ".jpg"@.len())
                            } else if text::strip_lit(r8, ".gif"@) is Some {
                                Some(s.len() - r8.len() + ".gif"@.len())
                            } else {
                                None
                            }
                        } else {
                            None
                        }
                    } else {
                        None
                    }
                } else {
                    None
                }
            } else {
                None
            }
        } else {
            None
        }
    } else {
        None
    }
}

/// A media URL starts at `i`.
pub open spec fn media_at(s: Seq<char>, i: int) -> bool {
    media_end(s, i) is Some
}

/// The first embedded media URL of a text post body.
pub open spec fn first_media(s: Seq<char>) -> Option<Seq<char>> {
    match text::first_from(s, |a: Seq<char>, b: int| media_at(a, b), 0) {
        None => None,
        Some(i) => Some(s.subrange(i, media_end(s, i)->0)),
    }
}

/// Tests for an embedded media URL at one position, giving its end.
fn media_probe(s: &str, i: usize) -> (r: Option<usize>)
    requires
        i <= s@.len(),
    ensures
        match r {
            Some(e) => media_end(s@, i as int) == Some(e as int) && i <= e <= s@.len(),
            None => media_end(s@, i as int) is None,
        },
{
    let len = s.unicode_len();
    let ghost rest = s@.skip(i as int);
    let j0 = if text::starts_with_at(s, i, "https://") {
        proof {
            text::lemma_lit_at_strip(s@, i as int, "https://"@);
        }
        i + "https://".unicode_len()
    } else if text::starts_with_at(s, i, "http://") {
        proof {
            text::lemma_lit_at_strip(s@, i as int, "https://"@);
            text::lemma_lit_at_strip(s@, i as int, "http://"@);
        }
        i + "http://".unicode_len()
    } else {
        proof {
            text::lemma_lit_at_strip(s@, i as int, "https://"@);
            text::lemma_lit_at_strip(s@, i as int, "http://"@);
        }
        return None;
    };
    let ghost r0 = s@.skip(j0 as int);
    let sub = text::run_len(s, j0, text::CharKind::Digit);
    proof {
        assert(text::kind_pred(text::CharKind::Digit) == (|c: char| text::is_digit(c)));
        assert forall|k: int| 0 <= k < r0.len() implies r0[k] == s@[j0 + k] by {}
    }
    let j1 = if sub > 0 && j0 + sub < len && s.get_char(j0 + sub) == '.' {
        proof {
            assert(r0[sub as int] == s@[j0 + sub]);
            assert(r0.skip(sub as int + 1) =~= s@.skip(j0 + sub + 1));
        }
        j0 + sub + 1
    } else {
        proof {
            if sub > 0 && sub < r0.len() {
                assert(r0[sub as int] == s@[j0 + sub]);
            }
        }
        j0
    };
    let j2 = match text::match_lit(s, j1, "media.tumblr.com/") {
        None => {
            proof {
                text::lemma_lit_at_strip(s@, j1 as int, "media.tumblr.com/"@);
            }
            return None;
        },
        Some(j) => {
            proof {
                text::lemma_lit_at_strip(s@, j1 as int, "media.tumblr.com/"@);
            }
            j
        },
    };
    media_tail_probe(s, i, j2)
}

/// Tests the tail of a media URL from position `j2`, the character
/// after the host.
#[verifier::rlimit(60)]
fn media_tail_probe(s: &str, i: usize, j2: usize) -> (r: Option<usize>)
    requires
        i <= j2 <= s@.len(),
    ensures
        match r {
            Some(e) => media_tail(s@, s@.skip(j2 as int)) == Some(e as int) && i <= e <= s@.len(),
            None => media_tail(s@, s@.skip(j2 as int)) is None,
        },
{
    let len = s.unicode_len();
    let ghost r2 = s@.skip(j2 as int);
    proof {
        assert(text::kind_pred(text::CharKind::HexLower) == (|c: char| text::is_hex_lower(c)));
        assert(text::kind_pred(text::CharKind::Digit) == (|c: char| text::is_digit(c)));
    }
    let h1 = text::run_len(s, j2, text::CharKind::HexLower);
    proof {
        text::lemma_skip_skip(s@, j2 as int, h1 as int);
        text::lemma_lit_at_strip(s@, j2 + h1 as int, "/"@);
    }
    if h1 == 0 || !text::starts_with_at(s, j2 + h1, "/") {
        return None;
    }
    proof {
        reveal_strlit("/");
        assert(r2.skip(h1 as int).skip(1) =~= r2.skip(h1 as int + 1));
        assert(r2.skip(h1 as int + 1) =~= s@.skip(j2 + h1 + 1));
    }
    let p3 = j2 + h1 + 1;
    let h2 = text::run_len(s, p3, text::CharKind::HexLower);
    proof {
        text::lemma_skip_skip(s@, p3 as int, h2 as int);
        text::lemma_lit_at_strip(s@, p3 + h2 as int, "-"@);
    }
    if h2 == 0 || !text::starts_with_at(s, p3 + h2, "-") {
        return None;
    }
    proof {
        reveal_strlit("-");
        assert(s@.skip(p3 as int).skip(h2 as int + 1) =~= s@.skip(p3 + h2 + 1));
    }
    let p4 = p3 + h2 + 1;
    let h3 = text::run_len(s, p4, text::CharKind::HexLower);
    proof {
        text::lemma_skip_skip(s@, p4 as int, h3 as int);
        text::lemma_lit_at_strip(s@, p4 + h3 as int, "/s"@);
    }
    if h3 == 0 || !text::starts_with_at(s, p4 + h3, "/s") {
        return None;
    }
    proof {
        reveal_strlit("/s");
        assert(s@.skip(p4 as int).skip(h3 as int + 2) =~= s@.skip(p4 + h3 + 2));
    }
    let p5 = p4 + h3 + 2;
    let d1 = text::run_len(s, p5, text::CharKind::Digit);
    proof {
        text::lemma_skip_skip(s@, p5 as int, d1 as int);
        text::lemma_lit_at_strip(s@, p5 + d1 as int, "x"@);
    }
    if d1 == 0 || !text::starts_with_at(s, p5 + d1, "x") {
        return None;
    }
    proof {
        reveal_strlit("x");
        assert(s@.skip(p5 as int).skip(d1 as int + 1) =~= s@.skip(p5 + d1 + 1));
    }
    let p6 = p5 + d1 + 1;
    let d2 = text::run_len(s, p6, text::CharKind::Digit);
    proof {
        text::lemma_skip_skip(s@, p6 as int, d2 as int);
        text::lemma_lit_at_strip(s@, p6 + d2 as int, "/"@);
    }
    if d2 == 0 || !text::starts_with_at(s, p6 + d2, "/") {
        return None;
    }
    proof {
        reveal_strlit("/");
        assert(s@.skip(p6 as int).skip(d2 as int + 1) =~= s@.skip(p6 + d2 + 1));
    }
    let p7 = p6 + d2 + 1;
    let h4 = text::run_len(s, p7, text::CharKind::HexLower);
    proof {
        text::lemma_skip_skip(s@, p7 as int, h4 as int);
    }
    if h4 == 0 {
        return None;
    }
    let p8 = p7 + h4;
    let ghost r8 = s@.skip(p8 as int);
    proof {
        text::lemma_lit_at_strip(s@, p8 as int, ".png"@);
        text::lemma_lit_at_strip(s@, p8 as int, ".jpeg"@);
        text::lemma_lit_at_strip(s@, p8 as int, ".jpg"@);
        text::lemma_lit_at_strip(s@, p8 as int, ".gif"@);
    }
    if let Some(e) = text::match_lit(s, p8, ".png") {
        return Some(e);
    }
    if let Some(e) = text::match_lit(s, p8, ".jpeg") {
        return Some(e);
    }
    if let Some(e) = text::match_lit(s, p8, ".jpg") {
        return Some(e);
    }
    if let Some(e) = text::match_lit(s, p8, ".gif") {
        return Some(e);
    }
    None
}

/// Finds the first embedded media URL in a text post body.
pub fn find_first_media(body: &str) -> (r: Option<String>)
    ensures
        match r {
            Some(u) => first_media(body@) matches Some(v) && u@ == v,
            None => first_media(body@) is None,
        },
{
    let ghost f = |a: Seq<char>, b: int| media_at(a, b);
    let len = body.unicode_len();
    let mut i: usize = 0;
    while i < len
        invariant
            0 <= i <= len,
            len == body@.len(),
            forall|t: int| 0 <= t < i ==> !#[trigger] f(body@, t),
            f == (|a: Seq<char>, b: int| media_at(a, b)),
        decreases len - i,
    {
        match media_probe(body, i) {
            Some(e) => {
                proof {
                    text::lemma_first_from_found(body@, f, i as int);
                }
                return Some(text::substr_copy(body, i, e));
            },
            None => {},
        }
        i = i + 1;
    }
    proof {
        reveal_strlit("https://");
        reveal_strlit("http://");
        assert(!f(body@, len as int));
        text::lemma_first_from_none(body@, f);
    }
    None
}

// ---------------------------------------------------------------------------
// Post processing
// ---------------------------------------------------------------------------

/// What the text-post flow yields: the first embedded media URL of the
/// body, normalized and camouflaged; nothing when the body has none.
pub open spec fn text_post_pairs(c: &crate::config::Configuration, post: crate::jsontree::JsonVal) -> Result<
    Option<Seq<(Seq<char>, Seq<char>)>>,
    Seq<Seq<char>>,
> {
    let body = match crate::jsontree::ojtext(crate::jsontree::jget(post, "body"@)) {
        Some(t) => t,
        None => Seq::empty(),
    };
    match first_media(body) {
        None => Result::Ok(None),
        Some(u) => match crate::urlkit::url_norm(u) {
            None => Result::Err(seq!["invalid media URL"@]),
            Some(n) => match crate::camo::camo_result(c, n) {
                Result::Err(m) => Result::Err(seq![m]),
                Result::Ok(w) => Result::Ok(Some(seq![(n, w)])),
            },
        },
    }
}

/// Runs the text-post flow over a decoded post.
pub fn tumblr_process_post_text(
    config: &crate::config::Configuration,
    post: &crate::jsontree::JsonVal,
) -> (r: Result<Option<Vec<crate::result::ScrapeImage>>, crate::result::ErrorChain>)
    ensures
        match r {
            Ok(opt) => match opt {
                None => text_post_pairs(config, *post) == Result::<
                    Option<Seq<(Seq<char>, Seq<char>)>>,
                    Seq<Seq<char>>,
                >::Ok(None),
                Some(v) => text_post_pairs(config, *post) == Result::<
                    Option<Seq<(Seq<char>, Seq<char>)>>,
                    Seq<Seq<char>>,
                >::Ok(Some(crate::result::image_pairs(v@))),
            },
            Err(ch) => text_post_pairs(config, *post) matches Err(msgs)
                && crate::result::chain_messages(ch.layers@) == msgs,
        },
{
    let body = match post.get("body") {
        Some(v) => match v.as_text() {
            Some(t) => t.clone(),
            None => String::new(),
        },
        None => String::new(),
    };
    match find_first_media(body.as_str()) {
        None => Ok(None),
        Some(u) => match crate::urlkit::parse_url(u.as_str()) {
            None => {
                let ch = crate::result::ErrorChain::message(
                    String::from_str("invalid media URL"),
                );
                proof {
                    crate::result::lemma_chain_messages_single(ch.layers@[0]);
                    assert(ch.layers@ =~= seq![ch.layers@[0]]);
                }
                Err(ch)
            },
            Some(p) => {
                let n = p.serial;
                match crate::camo::camo_url(config, n.as_str()) {
                    Err(m) => {
                        let ch = crate::result::ErrorChain::message(m);
                        proof {
                            crate::result::lemma_chain_messages_single(ch.layers@[0]);
                            assert(ch.layers@ =~= seq![ch.layers@[0]]);
                        }
                        Err(ch)
                    },
                    Ok(w) => {
                        let ghost nv = n@;
                        let ghost wv = w@;
                        let mut out: Vec<crate::result::ScrapeImage> = Vec::new();
                        out.push(crate::result::ScrapeImage { url: n, camo_url: w });
                        proof {
                            assert(crate::result::image_pairs(out@) =~= seq![(nv, wv)]);
                        }
                        Ok(Some(out))
                    },
                }
            },
        },
    }
}

/// The normalized preview URLs among a photo's alternate sizes: every
/// width-400 entry with a link, in order; an unparseable link fails the
/// flow.
pub open spec fn alt_valids(alts: Seq<crate::jsontree::JsonVal>, i: int) -> Result<
    Seq<Seq<char>>,
    Seq<Seq<char>>,
>
    decreases alts.len() - i,
{
    if !(0 <= i < alts.len()) {
        Result::Ok(Seq::empty())
    } else {
        let keep = crate::jsontree::ojnum(crate::jsontree::jget(alts[i], "width"@)) == Some(
            400i64,
        );
        if keep {
            match crate::jsontree::ojtext(crate::jsontree::jget(alts[i], "url"@)) {
                None => alt_valids(alts, i + 1),
                Some(u) => match crate::urlkit::url_norm(u) {
                    None => Result::Err(seq!["invalid preview URL"@]),
                    Some(n) => match alt_valids(alts, i + 1) {
                        Result::Err(e) => Result::Err(e),
                        Result::Ok(t) => Result::Ok(seq![n] + t),
                    },
                },
            }
        } else {
            alt_valids(alts, i + 1)
        }
    }
}

/// The first index at or after `i` where the row holds.
pub open spec fn first_true(row: Seq<bool>, i: int) -> Option<int>
    decreases row.len() - i,
{
    if !(0 <= i < row.len()) {
        None
    } else if row[i] {
        Some(i)
    } else {
        first_true(row, i + 1)
    }
}

/// What one photo contributes: nothing when it names no original asset
/// or no probed tier exists; otherwise the chosen (largest existing)
/// tier beside the preview the camouflage is applied to.
pub open spec fn photo_entry(
    c: &crate::config::Configuration,
    photo: crate::jsontree::JsonVal,
    row: Seq<bool>,
) -> Result<Option<(Seq<char>, Seq<char>)>, Seq<Seq<char>>> {
    match crate::jsontree::ojtext(
        crate::jsontree::ojget(crate::jsontree::jget(photo, "original_size"@), "url"@),
    ) {
        None => Result::Ok(None),
        Some(u) => {
            if exists|k: int|
                0 <= k < size_count() && crate::urlkit::url_norm(
                    #[trigger] resized(u, size_name(k)),
                ) is None {
                Result::Err(seq!["invalid photo URL"@])
            } else {
                match first_true(row, 0) {
                    None => Result::Ok(None),
                    Some(k) => {
                        let image = crate::urlkit::url_norm(resized(u, size_name(k)))->0;
                        match crate::jsontree::jget(photo, "alt_sizes"@) {
                            Some(crate::jsontree::JsonVal::List(alts)) => photo_entry_alts(
                                image,
                                alts@,
                            ),
                            _ => Result::Ok(Some((image, image))),
                        }
                    },
                }
            }
        },
    }
}

/// The pair one photo contributes once its tier is chosen: the chosen
/// image beside the last valid width-400 preview, the image standing in
/// when there is none.
pub open spec fn photo_entry_alts(image: Seq<char>, alts: Seq<crate::jsontree::JsonVal>) -> Result<
    Option<(Seq<char>, Seq<char>)>,
    Seq<Seq<char>>,
> {
    match alt_valids(alts, 0) {
        Result::Err(e) => Result::Err(e),
        Result::Ok(valid) => Result::Ok(
            Some(
                (
                    image,
                    if valid.len() == 0 {
                        image
                    } else {
                        valid.last()
                    },
                ),
            ),
        ),
    }
}

/// What the photo flow yields over all photos at and after `i`: one
/// pair per kept photo, a photo whose camouflage fails being dropped.
pub open spec fn photo_pairs_from(
    c: &crate::config::Configuration,
    photos: Seq<crate::jsontree::JsonVal>,
    oks: Seq<Seq<bool>>,
    i: int,
) -> Result<Seq<(Seq<char>, Seq<char>)>, Seq<Seq<char>>>
    decreases photos.len() - i,
{
    if !(0 <= i < photos.len()) {
        Result::Ok(Seq::empty())
    } else {
        match photo_entry(c, photos[i], oks[i]) {
            Result::Err(e) => Result::Err(e),
            Result::Ok(None) => photo_pairs_from(c, photos, oks, i + 1),
            Result::Ok(Some((img, prev))) => match crate::camo::camo_result(c, prev) {
                Result::Err(_) => photo_pairs_from(c, photos, oks, i + 1),
                Result::Ok(w) => match photo_pairs_from(c, photos, oks, i + 1) {
                    Result::Err(e) => Result::Err(e),
                    Result::Ok(t) => Result::Ok(seq![(img, w)] + t),
                },
            },
        }
    }
}

/// A found index with nothing set before it is the first one.
pub proof fn lemma_first_true_found(row: Seq<bool>, k: int)
    requires
        0 <= k < row.len(),
        forall|t: int| 0 <= t < k ==> !row[t],
        row[k],
    ensures
        first_true(row, 0) == Some(k),
{
    lemma_first_true_step(row, 0, k);
}

proof fn lemma_first_true_step(row: Seq<bool>, b: int, k: int)
    requires
        0 <= b <= k < row.len(),
        forall|t: int| b <= t < k ==> !row[t],
        row[k],
    ensures
        first_true(row, b) == Some(k),
    decreases k - b,
{
    if b < k {
        lemma_first_true_step(row, b + 1, k);
    }
}

/// With nothing set there is no first index.
pub proof fn lemma_first_true_none(row: Seq<bool>)
    requires
        forall|t: int| 0 <= t < row.len() ==> !row[t],
    ensures
        first_true(row, 0) is None,
{
    lemma_first_true_none_step(row, 0);
}

/// A found first index lies in range and is set.
pub proof fn lemma_first_true_range(row: Seq<bool>, b: int)
    requires
        0 <= b,
    ensures
        first_true(row, b) matches Some(k) ==> b <= k < row.len() && row[k],
    decreases row.len() - b + 1,
{
    if b < row.len() {
        lemma_first_true_range(row, b + 1);
    }
}

proof fn lemma_first_true_none_step(row: Seq<bool>, b: int)
    requires
        0 <= b,
        forall|t: int| b <= t < row.len() ==> !row[t],
    ensures
        first_true(row, b) is None,
    decreases row.len() - b + 1,
{
    if b < row.len() {
        lemma_first_true_none_step(row, b + 1);
    }
}

/// Runs one photo through candidate validation, tier choice and preview
/// selection.
fn photo_entry_exec(
    config: &crate::config::Configuration,
    photo: &crate::jsontree::JsonVal,
    row: &Vec<bool>,
) -> (r: Result<Option<(String, String)>, crate::result::ErrorChain>)
    requires
        row@.len() == size_count(),
    ensures
        match r {
            Ok(opt) => match opt {
                None => photo_entry(config, *photo, row@) == Result::<
                    Option<(Seq<char>, Seq<char>)>,
                    Seq<Seq<char>>,
                >::Ok(None),
                Some(p) => photo_entry(config, *photo, row@) == Result::<
                    Option<(Seq<char>, Seq<char>)>,
                    Seq<Seq<char>>,
                >::Ok(Some((p.0@, p.1@))),
            },
            Err(ch) => photo_entry(config, *photo, row@) matches Err(msgs)
                && crate::result::chain_messages(ch.layers@) == msgs,
        },
{
    let u = match crate::jsontree::oget(photo.get("original_size"), "url") {
        Some(v) => match v.as_text() {
            Some(t) => t.clone(),
            None => {
                return Ok(None);
            },
        },
        None => {
            return Ok(None);
        },
    };
    let ghost uorig = crate::jsontree::ojtext(
        crate::jsontree::ojget(crate::jsontree::jget(*photo, "original_size"@), "url"@),
    );
    proof {
        assert(uorig == Some(u@));
    }
    let cands = upsize_candidates(u.as_str());
    let mut k: usize = 0;
    while k < cands.len()
        invariant
            0 <= k <= cands@.len(),
            cands@.len() == size_count(),
            row@.len() == size_count(),
            crate::jsontree::ojtext(
                crate::jsontree::ojget(
                    crate::jsontree::jget(*photo, "original_size"@),
                    "url"@,
                ),
            ) == Some(u@),
            forall|t: int| 0 <= t < cands@.len() ==> (#[trigger] cands@[t])@ == resized(
                u@,
                size_name(t),
            ),
            forall|t: int|
                0 <= t < k ==> crate::urlkit::url_norm(#[trigger] resized(u@, size_name(t)))
                    is Some,
        decreases cands@.len() - k,
    {
        if !crate::urlkit::is_valid_url(cands[k].as_str()) {
            let ch = crate::result::ErrorChain::message(
                String::from_str("invalid photo URL"),
            );
            proof {
                crate::result::lemma_chain_messages_single(ch.layers@[0]);
                assert(ch.layers@ =~= seq![ch.layers@[0]]);
                assert(crate::urlkit::url_norm(resized(u@, size_name(k as int))) is None);
                assert(photo_entry(config, *photo, row@) matches Err(msgs) && msgs == seq![
                    "invalid photo URL"@,
                ]);
            }
            return Err(ch);
        }
        k = k + 1;
    }
    proof {
        assert forall|t: int|
            0 <= t < size_count() implies !(crate::urlkit::url_norm(
            #[trigger] resized(u@, size_name(t)),
        ) is None) by {}
    }
    let picked = match pick_upsized(&cands, row) {
        None => {
            return Ok(None);
        },
        Some(c) => c,
    };
    proof {
        lemma_first_true_range(row@, 0);
        let k = first_true(row@, 0)->0;
        assert(picked@ == resized(u@, size_name(k)));
    }
    let img = match crate::urlkit::parse_url(picked.as_str()) {
        Some(p) => p.serial,
        None => {
            proof {
                let k = first_true(row@, 0)->0;
                assert(crate::urlkit::url_norm(resized(u@, size_name(k))) is Some);
                assert(false);
            }
            return Ok(None);
        },
    };
    let ghost entry_now = photo_entry(config, *photo, row@);
    let prev: String = match photo.get("alt_sizes") {
        None => {
            proof {
                assert(entry_now == Result::<
                    Option<(Seq<char>, Seq<char>)>,
                    Seq<Seq<char>>,
                >::Ok(Some((img@, img@))));
            }
            img.clone()
        },
        Some(a) => match a.as_list() {
            None => {
                proof {
                    assert(entry_now == Result::<
                        Option<(Seq<char>, Seq<char>)>,
                        Seq<Seq<char>>,
                    >::Ok(Some((img@, img@))));
                }
                img.clone()
            },
            Some(alts) => {
                proof {
                    assert(entry_now == photo_entry_alts(img@, alts@));
                }
                let mut valid: Vec<String> = Vec::new();
                let mut j: usize = 0;
                proof {
                    assert(valid.deep_view() =~= Seq::<Seq<char>>::empty());
                }
                while j < alts.len()
                    invariant
                        0 <= j <= alts@.len(),
                        entry_now == photo_entry_alts(img@, alts@),
                        entry_now == photo_entry(config, *photo, row@),
                        alt_valids(alts@, j as int) matches Ok(tail) ==> (alt_valids(alts@, 0)
                            matches Ok(all) && valid.deep_view() + tail == all),
                        alt_valids(alts@, j as int) matches Err(e) ==> (alt_valids(alts@, 0)
                            matches Err(e2) && e == e2),
                    decreases alts@.len() - j,
                {
                    let ghost here = alt_valids(alts@, j as int);
                    let ghost next = alt_valids(alts@, j as int + 1);
                    let ghost prevv = valid.deep_view();
                    let keep = match crate::jsontree::oget(Some(&alts[j]), "width") {
                        Some(w) => match w.as_num() {
                            Some(n) => n == 400,
                            None => false,
                        },
                        None => false,
                    };
                    if keep {
                        match crate::jsontree::oget(Some(&alts[j]), "url") {
                            Some(v) => match v.as_text() {
                                Some(t) => {
                                    match crate::urlkit::parse_url(t.as_str()) {
                                        None => {
                                            let ch = crate::result::ErrorChain::message(
                                                String::from_str("invalid preview URL"),
                                            );
                                            proof {
                                                crate::result::lemma_chain_messages_single(
                                                    ch.layers@[0],
                                                );
                                                assert(ch.layers@ =~= seq![ch.layers@[0]]);
                                                assert(here matches Err(e) && e == seq![
                                                    "invalid preview URL"@,
                                                ]);
                                            }
                                            return Err(ch);
                                        },
                                        Some(p) => {
                                            let ghost nv = p.serial@;
                                            valid.push(p.serial);
                                            proof {
                                                assert(valid.deep_view() =~= prevv + seq![nv]);
                                                if next is Ok {
                                                    let tail2 = next->Ok_0;
                                                    assert(here matches Ok(tl) && tl == seq![nv]
                                                        + tail2);
                                                    assert(prevv + (seq![nv] + tail2) =~= (prevv
                                                        + seq![nv]) + tail2);
                                                }
                                            }
                                        },
                                    }
                                },
                                None => {
                                    proof {
                                        assert(here == next);
                                    }
                                },
                            },
                            None => {
                                proof {
                                    assert(here == next);
                                }
                            },
                        }
                    } else {
                        proof {
                            assert(here == next);
                        }
                    }
                    j = j + 1;
                }
                proof {
                    assert(alt_valids(alts@, alts@.len() as int) matches Ok(e) && e.len() == 0);
                    assert(valid.deep_view() + Seq::<Seq<char>>::empty() =~= valid.deep_view());
                }
                if valid.len() == 0 {
                    img.clone()
                } else {
                    let last = valid.len() - 1;
                    let p = valid[last].clone();
                    proof {
                        assert(valid.deep_view()[last as int] == valid.deep_view().last());
                    }
                    p
                }
            },
        },
    };
    Ok(Some((img, prev)))
}

/// The candidate URLs the probing step must test, one row per photo: a
/// photo naming an original asset gets its seven tier rewrites, largest
/// first; a photo without one gets an empty row.
pub fn tumblr_photo_candidates(post: &crate::jsontree::JsonVal) -> (r: Vec<Vec<String>>)
    ensures
        match crate::jsontree::jget(*post, "photos"@) {
            Some(ph) => ph matches crate::jsontree::JsonVal::List(items) ==> r@.len()
                == items@.len() && (forall|k: int|
                0 <= k < items@.len() ==> match crate::jsontree::ojtext(
                    crate::jsontree::ojget(
                        crate::jsontree::jget(#[trigger] items@[k], "original_size"@),
                        "url"@,
                    ),
                ) {
                    Some(u) => r@[k]@.len() == size_count() && (forall|s: int|
                        0 <= s < size_count() ==> (#[trigger] r@[k]@[s])@ == resized(
                            u,
                            size_name(s),
                        )),
                    None => r@[k]@.len() == 0,
                }),
            _ => r@.len() == 0,
        },
{
    let mut rows: Vec<Vec<String>> = Vec::new();
    let photos = match post.get("photos") {
        None => {
            return rows;
        },
        Some(p) => match p.as_list() {
            None => {
                return rows;
            },
            Some(items) => items,
        },
    };
    let mut i: usize = 0;
    while i < photos.len()
        invariant
            0 <= i <= photos@.len(),
            rows@.len() == i,
            forall|k: int|
                0 <= k < i ==> match crate::jsontree::ojtext(
                    crate::jsontree::ojget(
                        crate::jsontree::jget(#[trigger] photos@[k], "original_size"@),
                        "url"@,
                    ),
                ) {
                    Some(u) => rows@[k]@.len() == size_count() && (forall|s: int|
                        0 <= s < size_count() ==> (#[trigger] rows@[k]@[s])@ == resized(
                            u,
                            size_name(s),
                        )),
                    None => rows@[k]@.len() == 0,
                },
        decreases photos@.len() - i,
    {
        match crate::jsontree::oget(photos[i].get("original_size"), "url") {
            Some(v) => match v.as_text() {
                Some(t) => {
                    rows.push(upsize_candidates(t.as_str()));
                },
                None => {
                    rows.push(Vec::new());
                },
            },
            None => {
                rows.push(Vec::new());
            },
        }
        i = i + 1;
    }
    rows
}

/// Runs the photo flow over a decoded post and the probe answers, one
/// row of seven per photo.
pub fn tumblr_process_post_photo(
    config: &crate::config::Configuration,
    post: &crate::jsontree::JsonVal,
    oks: &Vec<Vec<bool>>,
) -> (r: Result<Option<Vec<crate::result::ScrapeImage>>, crate::result::ErrorChain>)
    requires
        match crate::jsontree::jget(*post, "photos"@) {
            Some(ph) => ph matches crate::jsontree::JsonVal::List(items) ==> oks.deep_view().len()
                == items@.len() && (forall|t: int|
                0 <= t < oks.deep_view().len() ==> (#[trigger] oks.deep_view()[t]).len()
                    == size_count()),
            _ => true,
        },
    ensures
        match r {
            Ok(opt) => match opt {
                None => !(crate::jsontree::jget(*post, "photos"@) matches Some(
                    crate::jsontree::JsonVal::List(items),
                )),
                Some(v) => crate::jsontree::jget(*post, "photos"@) matches Some(
                    crate::jsontree::JsonVal::List(items),
                ) && photo_pairs_from(config, items@, oks.deep_view(), 0) == Result::<
                    Seq<(Seq<char>, Seq<char>)>,
                    Seq<Seq<char>>,
                >::Ok(crate::result::image_pairs(v@)),
            },
            Err(ch) => crate::jsontree::jget(*post, "photos"@) matches Some(
                crate::jsontree::JsonVal::List(items),
            ) && photo_pairs_from(config, items@, oks.deep_view(), 0) matches Err(msgs)
                && crate::result::chain_messages(ch.layers@) == msgs,
        },
{
    let photos = match post.get("photos") {
        None => {
            return Ok(None);
        },
        Some(p) => match p.as_list() {
            None => {
                return Ok(None);
            },
            Some(items) => items,
        },
    };
    let ghost okv = oks.deep_view();
    let mut images: Vec<crate::result::ScrapeImage> = Vec::new();
    let mut i: usize = 0;
    proof {
        assert(crate::result::image_pairs(images@) =~= Seq::<(Seq<char>, Seq<char>)>::empty());
    }
    while i < photos.len()
        invariant
            0 <= i <= photos@.len(),
            okv == oks.deep_view(),
            okv.len() == photos@.len(),
            forall|t: int| 0 <= t < okv.len() ==> (#[trigger] okv[t]).len() == size_count(),
            crate::jsontree::jget(*post, "photos"@) matches Some(
                crate::jsontree::JsonVal::List(items),
            ) && items@ == photos@,
            photo_pairs_from(config, photos@, okv, i as int) matches Ok(tail) ==> (
            photo_pairs_from(config, photos@, okv, 0) matches Ok(all)
                && crate::result::image_pairs(images@) + tail == all),
            photo_pairs_from(config, photos@, okv, i as int) matches Err(e) ==> (
            photo_pairs_from(config, photos@, okv, 0) matches Err(e2) && e == e2),
        decreases photos@.len() - i,
    {
        let ghost here = photo_pairs_from(config, photos@, okv, i as int);
        let ghost next = photo_pairs_from(config, photos@, okv, i as int + 1);
        let ghost prevp = crate::result::image_pairs(images@);
        proof {
            assert(okv[i as int] =~= oks@[i as int]@);
        }
        match photo_entry_exec(config, &photos[i], &oks[i]) {
            Err(ch) => {
                return Err(ch);
            },
            Ok(None) => {
                proof {
                    assert(here == next);
                }
            },
            Ok(Some(pair)) => {
                let (img, prev) = pair;
                match crate::camo::camo_url(config, prev.as_str()) {
                    Err(_) => {
                        proof {
                            assert(here == next);
                        }
                    },
                    Ok(w) => {
                        let ghost iv = img@;
                        let ghost wv = w@;
                        images.push(crate::result::ScrapeImage { url: img, camo_url: w });
                        proof {
                            assert(crate::result::image_pairs(images@) =~= prevp + seq![
                                (iv, wv),
                            ]);
                            if next is Ok {
                                let tail2 = next->Ok_0;
                                assert(here matches Ok(tl) && tl == seq![(iv, wv)] + tail2);
                                assert(prevp + (seq![(iv, wv)] + tail2) =~= (prevp + seq![
                                    (iv, wv),
                                ]) + tail2);
                            }
                        }
                    },
                }
            },
        }
        i = i + 1;
    }
    proof {
        assert(photo_pairs_from(config, photos@, okv, photos@.len() as int) matches Ok(e)
            && e.len() == 0);
        assert(crate::result::image_pairs(images@) + Seq::<(Seq<char>, Seq<char>)>::empty()
            =~= crate::result::image_pairs(images@));
    }
    Ok(Some(images))
}

// ---------------------------------------------------------------------------
// Meta fields and the composed extraction
// ---------------------------------------------------------------------------

/// Attaches the post's metadata to a set of extracted images.
pub fn tumblr_add_meta(
    post: &crate::jsontree::JsonVal,
    images: Option<Vec<crate::result::ScrapeImage>>,
) -> (r: Result<Option<crate::result::ScrapeResult>, crate::result::ErrorChain>)
    ensures
        images is None ==> r == Result::<
            Option<crate::result::ScrapeResult>,
            crate::result::ErrorChain,
        >::Ok(None),
        images matches Some(v) ==> match r {
            Ok(opt) => opt matches Some(sr) && sr matches crate::result::ScrapeResult::Found(d)
                && {
                &&& d.images == v
                &&& d.additional_tags is None
                &&& match crate::jsontree::ojtext(crate::jsontree::jget(*post, "post_url"@)) {
                    None => d.source_url is None,
                    Some(u) => crate::urlkit::url_norm(u) matches Some(n) && (d.source_url
                        matches Some(su) && su@ == n),
                }
                &&& match crate::jsontree::ojtext(crate::jsontree::jget(*post, "blog_name"@)) {
                    None => d.author_name is None,
                    Some(a) => d.author_name matches Some(an) && an@ == a,
                }
                &&& match crate::jsontree::ojtext(crate::jsontree::jget(*post, "summary"@)) {
                    None => d.description is None,
                    Some(s) => d.description matches Some(de) && de@ == s,
                }
            },
            Err(ch) => crate::jsontree::ojtext(crate::jsontree::jget(*post, "post_url"@))
                matches Some(u) && crate::urlkit::url_norm(u) is None
                && crate::result::chain_messages(ch.layers@) == seq!["invalid post URL"@],
        },
{
    let v = match images {
        None => {
            return Ok(None);
        },
        Some(v) => v,
    };
    let source_url = match post.get("post_url") {
        None => None,
        Some(node) => match node.as_text() {
            None => None,
            Some(u) => match crate::urlkit::parse_url(u.as_str()) {
                None => {
                    let ch = crate::result::ErrorChain::message(
                        String::from_str("invalid post URL"),
                    );
                    proof {
                        crate::result::lemma_chain_messages_single(ch.layers@[0]);
                        assert(ch.layers@ =~= seq![ch.layers@[0]]);
                    }
                    return Err(ch);
                },
                Some(p) => Some(p.serial),
            },
        },
    };
    let author_name = match post.get("blog_name") {
        None => None,
        Some(node) => match node.as_text() {
            None => None,
            Some(a) => Some(a.clone()),
        },
    };
    let description = match post.get("summary") {
        None => None,
        Some(node) => match node.as_text() {
            None => None,
            Some(s) => Some(s.clone()),
        },
    };
    Ok(
        Some(
            crate::result::ScrapeResult::Found(
                crate::result::ScrapeResultData {
                    source_url,
                    author_name,
                    additional_tags: None,
                    description,
                    images: v,
                },
            ),
        ),
    )
}

/// Whether the metadata API answered with a good status.
pub open spec fn meta_ok(resp: crate::jsontree::JsonVal) -> bool {
    crate::jsontree::ojnum(
        crate::jsontree::ojget(crate::jsontree::jget(resp, "meta"@), "status"@),
    ) == Some(200i64)
}

/// The first post of the API response.
pub open spec fn tumblr_post(resp: crate::jsontree::JsonVal) -> Option<crate::jsontree::JsonVal> {
    crate::jsontree::ojat(
        crate::jsontree::ojget(crate::jsontree::jget(resp, "response"@), "posts"@),
        0,
    )
}

/// The declared type of the first post.
pub open spec fn tumblr_post_type(resp: crate::jsontree::JsonVal) -> Option<Seq<char>> {
    crate::jsontree::ojtext(crate::jsontree::ojget(tumblr_post(resp), "type"@))
}

/// Extracts a post from a decoded metadata API response and the upsizing
/// probe answers: photo posts run the speculative upsizing, text posts
/// the body media scan, anything else extracts to nothing.
pub fn tumblr_scrape(
    config: &crate::config::Configuration,
    resp: &crate::jsontree::JsonVal,
    oks: &Vec<Vec<bool>>,
) -> (r: Result<Option<crate::result::ScrapeResult>, crate::result::ErrorChain>)
    requires
        tumblr_post_type(*resp) == Some("photo"@) ==> match tumblr_post(*resp) {
            Some(p) => match crate::jsontree::jget(p, "photos"@) {
                Some(ph) => ph matches crate::jsontree::JsonVal::List(items)
                    ==> oks.deep_view().len() == items@.len() && (forall|t: int|
                    0 <= t < oks.deep_view().len() ==> (#[trigger] oks.deep_view()[t]).len()
                        == size_count()),
                _ => true,
            },
            None => true,
        },
    ensures
        !meta_ok(*resp) ==> (r matches Err(ch) && crate::result::chain_messages(ch.layers@)
            == seq!["tumblr returned non-200 error"@]),
        meta_ok(*resp) && !(tumblr_post_type(*resp) == Some("photo"@) || tumblr_post_type(*resp)
            == Some("text"@)) ==> r == Result::<
            Option<crate::result::ScrapeResult>,
            crate::result::ErrorChain,
        >::Ok(None),
        meta_ok(*resp) && tumblr_post_type(*resp) == Some("photo"@) ==> (tumblr_post(*resp)
            matches Some(p) && match crate::jsontree::jget(p, "photos"@) {
            Some(ph) => ph matches crate::jsontree::JsonVal::List(items) ==> match photo_pairs_from(
                config,
                items@,
                oks.deep_view(),
                0,
            ) {
                Result::Err(msgs) => r matches Err(ch) && crate::result::chain_messages(
                    ch.layers@,
                ) == msgs,
                Result::Ok(pairs) => (r matches Err(ch) && crate::result::chain_messages(
                    ch.layers@,
                ) == seq!["invalid post URL"@] && (crate::jsontree::ojtext(
                    crate::jsontree::jget(p, "post_url"@),
                ) matches Some(u) && crate::urlkit::url_norm(u) is None)) || (r matches Ok(opt)
                    && opt matches Some(sr) && sr
                    matches crate::result::ScrapeResult::Found(d)
                    && crate::result::image_pairs(d.images@) == pairs),
            },
            _ => r == Result::<
                Option<crate::result::ScrapeResult>,
                crate::result::ErrorChain,
            >::Ok(None),
        }),
        meta_ok(*resp) && tumblr_post_type(*resp) == Some("text"@) ==> (tumblr_post(*resp)
            matches Some(p) && match text_post_pairs(config, p) {
            Result::Err(msgs) => r matches Err(ch) && crate::result::chain_messages(ch.layers@)
                == msgs,
            Result::Ok(None) => r == Result::<
                Option<crate::result::ScrapeResult>,
                crate::result::ErrorChain,
            >::Ok(None),
            Result::Ok(Some(pairs)) => (r matches Err(ch) && crate::result::chain_messages(
                ch.layers@,
            ) == seq!["invalid post URL"@] && (crate::jsontree::ojtext(
                crate::jsontree::jget(p, "post_url"@),
            ) matches Some(u) && crate::urlkit::url_norm(u) is None)) || (r matches Ok(opt)
                && opt matches Some(sr) && sr matches crate::result::ScrapeResult::Found(d)
                && crate::result::image_pairs(d.images@) == pairs),
        }),
{
    let status_good = match crate::jsontree::oget(resp.get("meta"), "status") {
        Some(v) => match v.as_num() {
            Some(n) => n == 200,
            None => false,
        },
        None => false,
    };
    if !status_good {
        let ch = crate::result::ErrorChain::message(
            String::from_str("tumblr returned non-200 error"),
        );
        proof {
            crate::result::lemma_chain_messages_single(ch.layers@[0]);
            assert(ch.layers@ =~= seq![ch.layers@[0]]);
        }
        return Err(ch);
    }
    let post = match crate::jsontree::oat(
        crate::jsontree::oget(resp.get("response"), "posts"),
        0,
    ) {
        None => {
            return Ok(None);
        },
        Some(p) => p,
    };
    let ptype = match post.get("type") {
        None => {
            return Ok(None);
        },
        Some(v) => match v.as_text() {
            None => {
                return Ok(None);
            },
            Some(t) => t,
        },
    };
    proof {
        reveal_strlit("photo");
        reveal_strlit("text");
        assert("photo"@.len() == 5);
        assert("text"@.len() == 4);
        assert("photo"@ != "text"@);
        assert(tumblr_post(*resp) == Some(*post));
        assert(tumblr_post_type(*resp) == Some(ptype@));
    }
    if text::str_eq(ptype.as_str(), "photo") {
        match tumblr_process_post_photo(config, post, oks) {
            Err(ch) => Err(ch),
            Ok(images) => tumblr_add_meta(post, images),
        }
    } else if text::str_eq(ptype.as_str(), "text") {
        match tumblr_process_post_text(config, post) {
            Err(ch) => Err(ch),
            Ok(images) => {
                let imgs = match images {
                    None => {
                        return Ok(None);
                    },
                    Some(v) => Some(v),
                };
                tumblr_add_meta(post, imgs)
            },
        }
    } else {
        Ok(None)
    }
}

} // verus!
