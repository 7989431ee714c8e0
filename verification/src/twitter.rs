//! The token-exchange backend: status-URL recognition, the four-leg
//! credential flow's pure steps, and timeline-response extraction.
use vstd::prelude::*;

use crate::text;

verus! {

/// The user and status id of a status URL: a scheme, an optional mobile
/// host prefix, the platform host, a non-empty word run, `/status/`, and
/// a non-empty digit run.
pub open spec fn twitter_parts(s: Seq<char>) -> Option<(Seq<char>, Seq<char>)> {
    match text::strip_scheme(s) {
        None => None,
        Some(r0) => {
            let r1 = match text::strip_lit(r0, "mobile."@) {
                Some(r) => r,
                None => r0,
            };
            match text::strip_lit(r1, "twitter.com/"@) {
                None => None,
                Some(r2) => {
                    let u = text::prefix_len(r2, |c: char| text::is_word_char(c));
                    if u <= 0 {
                        None
                    } else {
                        match text::strip_lit(r2.skip(u), "/status/"@) {
                            None => None,
                            Some(r4) => {
                                let d = text::prefix_len(r4, |c: char| text::is_digit(c));
                                if d <= 0 {
                                    None
                                } else {
                                    Some((r2.take(u), r4.take(d)))
                                }
                            },
                        }
                    }
                },
            }
        },
    }
}

/// Captures the user and status id of a status URL.
pub fn twitter_status_parts(url: &str) -> (r: Option<(String, String)>)
    ensures
        match r {
            Some(p) => twitter_parts(url@) matches Some(q) && p.0@ == q.0 && p.1@ == q.1,
            None => twitter_parts(url@) is None,
        },
{
    let len = url.unicode_len();
    let i0 = match text::match_scheme(url) {
        None => {
            return None;
        },
        Some(j) => j,
    };
    let i1 = match text::match_lit(url, i0, "mobile.") {
        Some(j) => {
            proof {
                text::lemma_lit_at_strip(url@, i0 as int, "mobile."@);
            }
            j
        },
        None => {
            proof {
                text::lemma_lit_at_strip(url@, i0 as int, "mobile."@);
            }
            i0
        },
    };
    let i2 = match text::match_lit(url, i1, "twitter.com/") {
        None => {
            proof {
                text::lemma_lit_at_strip(url@, i1 as int, "twitter.com/"@);
            }
            return None;
        },
        Some(j) => {
            proof {
                text::lemma_lit_at_strip(url@, i1 as int, "twitter.com/"@);
            }
            j
        },
    };
    let u = text::run_len(url, i2, text::CharKind::Word);
    proof {
        assert(text::kind_pred(text::CharKind::Word) == (|c: char| text::is_word_char(c)));
    }
    if u == 0 {
        return None;
    }
    proof {
        text::lemma_skip_skip(url@, i2 as int, u as int);
    }
    let i3 = match text::match_lit(url, i2 + u, "/status/") {
        None => {
            proof {
                text::lemma_lit_at_strip(url@, i2 + u as int, "/status/"@);
            }
            return None;
        },
        Some(j) => {
            proof {
                text::lemma_lit_at_strip(url@, i2 + u as int, "/status/"@);
            }
            j
        },
    };
    let d = text::run_len(url, i3, text::CharKind::Digit);
    proof {
        assert(text::kind_pred(text::CharKind::Digit) == (|c: char| text::is_digit(c)));
    }
    if d == 0 {
        return None;
    }
    let user = text::substr_copy(url, i2, i2 + u);
    let id = text::substr_copy(url, i3, i3 + d);
    proof {
        text::lemma_skip_take(url@, i2 as int, u as int);
        text::lemma_skip_take(url@, i3 as int, d as int);
    }
    Some((user, id))
}

/// Classifies a status URL.
pub fn is_twitter(url: &str) -> (r: bool)
    ensures
        r == (twitter_parts(url@) is Some),
{
    twitter_status_parts(url).is_some()
}

// ---------------------------------------------------------------------------
// The four-leg flow: URLs and credential captures
// ---------------------------------------------------------------------------

/// The canonical page URL of a status.
pub open spec fn page_url_of(user: Seq<char>, id: Seq<char>) -> Seq<char> {
    "https://twitter.com/"@ + user + "/status/"@ + id
}

/// Builds the canonical page URL of a status.
pub fn twitter_page_url(user: &str, id: &str) -> (r: String)
    ensures
        r@ == page_url_of(user@, id@),
{
    let mut out = String::from_str("https://twitter.com/");
    out.append(user);
    out.append("/status/");
    out.append(id);
    out
}

/// The timeline API URL of a status.
pub open spec fn api_url_of(id: Seq<char>) -> Seq<char> {
    "https://api.twitter.com/2/timeline/conversation/"@ + id + ".json?tweet_mode=extended"@
}

/// Builds the timeline API URL of a status.
pub fn twitter_api_url(id: &str) -> (r: String)
    ensures
        r@ == api_url_of(id@),
{
    let mut out = String::from_str("https://api.twitter.com/2/timeline/conversation/");
    out.append(id);
    out.append(".json?tweet_mode=extended");
    out
}

/// The guest-token activation endpoint.
pub fn activation_url() -> (r: String)
    ensures
        r@ == "https://api.twitter.com/1.1/guest/activate.json"@,
{
    String::from_str("https://api.twitter.com/1.1/guest/activate.json")
}

/// Where the embedded script reference ends, when one starts at `i`: a
/// quoted script URL on the platform CDN, optionally of the legacy
/// variant, with a non-empty hash and a `.js` suffix.
pub open spec fn script_end(s: Seq<char>, i: int) -> Option<int> {
    if !(0 <= i <= s.len()) {
        None
    } else {
        match text::strip_lit(s.skip(i), "=\""@) {
            None => None,
            Some(r0) => match text::strip_lit(
                r0,
                "https://abs.twimg.com/responsive-web/client-web"@,
            ) {
                None => None,
                Some(r1) => {
                    let r2 = match text::strip_lit(r1, "-legacy"@) {
                        Some(x) => x,
                        None => r1,
                    };
                    match text::strip_lit(r2, "/main."@) {
                        None => None,
                        Some(r3) => {
                            let d = text::prefix_len(
                                r3,
                                |c: char| text::is_digit(c) || text::is_lower(c),
                            );
                            if d > 0 && text::strip_lit(r3.skip(d), ".js"@) is Some {
                                Some(s.len() - (r3.len() - d - ".js"@.len()))
                            } else {
                                None
                            }
                        },
                    }
                },
            },
        }
    }
}

/// A script reference starts at `i`.
pub open spec fn script_at(s: Seq<char>, i: int) -> bool {
    script_end(s, i) is Some
}

/// The captured script URL of a reference starting at `i`.
pub open spec fn script_cap(s: Seq<char>, i: int) -> Seq<char> {
    s.subrange(i + "=\""@.len(), script_end(s, i)->0)
}

/// Tests for a script reference at one position, giving the capture.
fn script_probe(s: &str, i: usize) -> (r: Option<String>)
    requires
        i <= s@.len(),
    ensures
        match r {
            Some(c) => script_at(s@, i as int) && c@ == script_cap(s@, i as int),
            None => !script_at(s@, i as int),
        },
{
    let len = s.unicode_len();
    let j0 = match text::match_lit(s, i, "=\"") {
        None => {
            proof {
                text::lemma_lit_at_strip(s@, i as int, "=\""@);
            }
            return None;
        },
        Some(j) => {
            proof {
                text::lemma_lit_at_strip(s@, i as int, "=\""@);
            }
            j
        },
    };
    let j1 = match text::match_lit(s, j0, "https://abs.twimg.com/responsive-web/client-web") {
        None => {
            proof {
                text::lemma_lit_at_strip(
                    s@,
                    j0 as int,
                    "https://abs.twimg.com/responsive-web/client-web"@,
                );
            }
            return None;
        },
        Some(j) => {
            proof {
                text::lemma_lit_at_strip(
                    s@,
                    j0 as int,
                    "https://abs.twimg.com/responsive-web/client-web"@,
                );
            }
            j
        },
    };
    let j2 = match text::match_lit(s, j1, "-legacy") {
        Some(j) => {
            proof {
                text::lemma_lit_at_strip(s@, j1 as int, "-legacy"@);
            }
            j
        },
        None => {
            proof {
                text::lemma_lit_at_strip(s@, j1 as int, "-legacy"@);
            }
            j1
        },
    };
    let j3 = match text::match_lit(s, j2, "/main.") {
        None => {
            proof {
                text::lemma_lit_at_strip(s@, j2 as int, "/main."@);
            }
            return None;
        },
        Some(j) => {
            proof {
                text::lemma_lit_at_strip(s@, j2 as int, "/main."@);
            }
            j
        },
    };
    let d = text::run_len(s, j3, text::CharKind::AlnumLower);
    proof {
        assert(text::kind_pred(text::CharKind::AlnumLower) == (
        |c: char| text::is_digit(c) || text::is_lower(c)));
        text::lemma_skip_skip(s@, j3 as int, d as int);
    }
    if d == 0 {
        return None;
    }
    match text::match_lit(s, j3 + d, ".js") {
        None => {
            proof {
                text::lemma_lit_at_strip(s@, j3 + d as int, ".js"@);
            }
            None
        },
        Some(j4) => {
            proof {
                text::lemma_lit_at_strip(s@, j3 + d as int, ".js"@);
                assert(script_end(s@, i as int) == Some(j4 as int));
            }
            Some(text::substr_copy(s, j0, j4))
        },
    }
}

/// Finds the first embedded script reference in a fetched page and
/// captures its URL.
pub fn find_script_url(body: &str) -> (r: Option<String>)
    ensures
        match r {
            Some(c) => text::first_from(body@, |a: Seq<char>, b: int| script_at(a, b), 0)
                matches Some(i) && c@ == script_cap(body@, i),
            None => text::first_from(body@, |a: Seq<char>, b: int| script_at(a, b), 0) is None,
        },
{
    let ghost f = |a: Seq<char>, b: int| script_at(a, b);
    let len = body.unicode_len();
    let mut i: usize = 0;
    while i < len
        invariant
            0 <= i <= len,
            len == body@.len(),
            forall|t: int| 0 <= t < i ==> !#[trigger] f(body@, t),
            f == (|a: Seq<char>, b: int| script_at(a, b)),
        decreases len - i,
    {
        match script_probe(body, i) {
            Some(c) => {
                proof {
                    text::lemma_first_from_found(body@, f, i as int);
                }
                return Some(c);
            },
            None => {},
        }
        i = i + 1;
    }
    proof {
        reveal_strlit("=\"");
        text::lemma_lit_at_strip(body@, len as int, "=\""@);
        assert(!f(body@, len as int));
        text::lemma_first_from_none(body@, f);
    }
    None
}

/// Where the long-lived bearer credential starts: the marker run of
/// thirteen `A` characters; the capture runs to the next quote.
pub open spec fn bearer_at(s: Seq<char>, i: int) -> bool {
    text::lit_at(s, i, "AAAAAAAAAAAAA"@)
}

/// The captured bearer at `i`.
pub open spec fn bearer_cap(s: Seq<char>, i: int) -> Seq<char> {
    let m = i + "AAAAAAAAAAAAA"@.len();
    s.subrange(i, m + text::prefix_len(s.skip(m), |c: char| c != '"'))
}

/// Finds the first bearer credential in fetched script text.
pub fn find_bearer(body: &str) -> (r: Option<String>)
    ensures
        match r {
            Some(c) => text::first_from(body@, |a: Seq<char>, b: int| bearer_at(a, b), 0)
                matches Some(i) && c@ == bearer_cap(body@, i),
            None => text::first_from(body@, |a: Seq<char>, b: int| bearer_at(a, b), 0) is None,
        },
{
    let ghost f = |a: Seq<char>, b: int| bearer_at(a, b);
    let len = body.unicode_len();
    let mut i: usize = 0;
    while i < len
        invariant
            0 <= i <= len,
            len == body@.len(),
            forall|t: int| 0 <= t < i ==> !#[trigger] f(body@, t),
            f == (|a: Seq<char>, b: int| bearer_at(a, b)),
        decreases len - i,
    {
        match text::match_lit(body, i, "AAAAAAAAAAAAA") {
            Some(m) => {
                proof {
                    text::lemma_first_from_found(body@, f, i as int);
                }
                let q = text::run_len(body, m, text::CharKind::NotQuote);
                proof {
                    assert(text::kind_pred(text::CharKind::NotQuote) == (|c: char| c != '"'));
                }
                return Some(text::substr_copy(body, i, m + q));
            },
            None => {},
        }
        i = i + 1;
    }
    proof {
        reveal_strlit("AAAAAAAAAAAAA");
        assert(!f(body@, len as int));
        text::lemma_first_from_none(body@, f);
    }
    None
}

// ---------------------------------------------------------------------------
// Token and timeline extraction
// ---------------------------------------------------------------------------

/// Reads the guest token out of the activation response: absent means
/// the platform sent none, a non-text node means it sent garbage.
pub fn parse_guest_token(v: &crate::jsontree::JsonVal) -> (r: Result<
    String,
    crate::result::ErrorChain,
>)
    requires
        *v is Object,
    ensures
        match r {
            Ok(t) => crate::jsontree::jget(*v, "guest_token"@) matches Some(g)
                && crate::jsontree::jtext(g) == Some(t@),
            Err(ch) => {
                ||| (crate::jsontree::jget(*v, "guest_token"@) is None
                    && crate::result::chain_messages(ch.layers@) == seq![
                    "no GT in twitter API response"@,
                ])
                ||| (crate::jsontree::jget(*v, "guest_token"@) matches Some(g) && crate::jsontree::jtext(
                    g,
                ) is None && crate::result::chain_messages(ch.layers@) == seq![
                    "invalid GT in twitter API response"@,
                ])
            },
        },
{
    match v.get("guest_token") {
        None => {
            let ch = crate::result::ErrorChain::message(
                String::from_str("no GT in twitter API response"),
            );
            proof {
                crate::result::lemma_chain_messages_single(ch.layers@[0]);
                assert(ch.layers@ =~= seq![ch.layers@[0]]);
            }
            Err(ch)
        },
        Some(g) => match g.as_text() {
            Some(t) => Ok(t.clone()),
            None => {
                let ch = crate::result::ErrorChain::message(
                    String::from_str("invalid GT in twitter API response"),
                );
                proof {
                    crate::result::lemma_chain_messages_single(ch.layers@[0]);
                    assert(ch.layers@ =~= seq![ch.layers@[0]]);
                }
                Err(ch)
            },
        },
    }
}

/// Strips every trailing `:orig` size marker off an asset URL.
pub open spec fn trim_orig(s: Seq<char>) -> Seq<char>
    decreases s.len(),
{
    if s.len() >= 5 && s.skip(s.len() - 5) == ":orig"@ {
        trim_orig(s.take(s.len() - 5))
    } else {
        s
    }
}

/// Strips every trailing `:orig` size marker off an asset URL.
pub fn trim_orig_suffix(s: &str) -> (r: String)
    ensures
        r@ == trim_orig(s@),
{
    let mut end = s.unicode_len();
    proof {
        reveal_strlit(":orig");
        assert(s@.take(end as int) =~= s@);
    }
    while end >= 5 && text::starts_with_at(s, end - 5, ":orig")
        invariant
            0 <= end <= s@.len(),
            trim_orig(s@) == trim_orig(s@.take(end as int)),
        decreases end,
    {
        proof {
            reveal_strlit(":orig");
            let cur = s@.take(end as int);
            assert(cur.skip(end - 5) =~= s@.subrange(end - 5, end as int));
            assert(cur.take(end - 5) =~= s@.take(end - 5));
        }
        end = end - 5;
    }
    proof {
        reveal_strlit(":orig");
        let cur = s@.take(end as int);
        if end >= 5 {
            assert(cur.skip(end - 5) =~= s@.subrange(end - 5, end as int));
        }
        assert(trim_orig(cur) == cur);
    }
    text::substr_copy(s, 0, end)
}

/// The tweet node of a timeline response: the status id looked up in
/// the global tweet table; a missing step keeps yielding nothing.
pub open spec fn tweet_of(api: crate::jsontree::JsonVal, id: Seq<char>) -> Option<
    crate::jsontree::JsonVal,
> {
    crate::jsontree::ojget(
        crate::jsontree::ojget(crate::jsontree::jget(api, "globalObjects"@), "tweets"@),
        id,
    )
}

/// The text of an optional node.
pub open spec fn otext(o: Option<crate::jsontree::JsonVal>) -> Option<Seq<char>> {
    match o {
        Some(v) => crate::jsontree::jtext(v),
        None => None,
    }
}

/// The description of a tweet: its `text`, or failing that its
/// `full_text`.
pub open spec fn tweet_description(tw: Option<crate::jsontree::JsonVal>) -> Option<Seq<char>> {
    match otext(crate::jsontree::ojget(tw, "text"@)) {
        Some(t) => Some(t),
        None => otext(crate::jsontree::ojget(tw, "full_text"@)),
    }
}

/// The media entries of a tweet, or nothing when the tweet carries no
/// media list.
pub open spec fn media_items(api: crate::jsontree::JsonVal, id: Seq<char>) -> Seq<
    crate::jsontree::JsonVal,
> {
    match crate::jsontree::ojget(
        crate::jsontree::ojget(tweet_of(api, id), "entities"@),
        "media"@,
    ) {
        Some(crate::jsontree::JsonVal::List(v)) => v@,
        _ => Seq::empty(),
    }
}

/// The images built from the media entries at and after `i`: each entry
/// contributes its asset URL (normalized, the page URL standing in for
/// an unparseable one) without its size marker, beside the camouflage of
/// the marked URL; an entry whose camouflage fails is dropped.
pub open spec fn twitter_images_from(
    c: &crate::config::Configuration,
    items: Seq<crate::jsontree::JsonVal>,
    i: int,
    pagenorm: Seq<char>,
) -> Seq<(Seq<char>, Seq<char>)>
    decreases items.len() - i,
{
    if !(0 <= i < items.len()) {
        Seq::empty()
    } else {
        let orig_str = match crate::jsontree::jget(items[i], "media_url_https"@) {
            Some(v) => match crate::jsontree::jtext(v) {
                Some(t) => t,
                None => Seq::empty(),
            },
            None => Seq::empty(),
        };
        let orig_url = match crate::urlkit::url_norm(orig_str) {
            Some(u) => u,
            None => pagenorm,
        };
        let noorig_url = match crate::urlkit::url_norm(trim_orig(orig_str)) {
            Some(u) => u,
            None => pagenorm,
        };
        match crate::camo::camo_result(c, orig_url) {
            Result::Err(_) => twitter_images_from(c, items, i + 1, pagenorm),
            Result::Ok(w) => seq![(noorig_url, w)] + twitter_images_from(c, items, i + 1, pagenorm),
        }
    }
}

/// Extracts a post from a timeline response: the media images with the
/// size marker stripped, the tweet text, and the canonical page URL as
/// source. A tweet without media extracts to nothing.
pub fn twitter_scrape(
    config: &crate::config::Configuration,
    api: &crate::jsontree::JsonVal,
    user: &str,
    id: &str,
) -> (r: Result<Option<crate::result::ScrapeResult>, crate::result::ErrorChain>)
    requires
        *api is Object,
    ensures
        match r {
            Err(ch) => crate::urlkit::url_norm(page_url_of(user@, id@)) is None
                && crate::result::chain_messages(ch.layers@) == seq![
                "page url is not valid from API"@,
            ],
            Ok(opt) => crate::urlkit::url_norm(page_url_of(user@, id@)) matches Some(pn) && {
                let imgs = twitter_images_from(config, media_items(*api, id@), 0, pn);
                match opt {
                    None => imgs.len() == 0,
                    Some(sr) => sr matches crate::result::ScrapeResult::Found(d) && {
                        &&& imgs.len() > 0
                        &&& crate::result::image_pairs(d.images@) == imgs
                        &&& d.source_url matches Some(su) && su@ == pn
                        &&& d.author_name matches Some(a) && a@ == user@
                        &&& d.additional_tags is None
                        &&& match tweet_description(tweet_of(*api, id@)) {
                            Some(t) => d.description matches Some(de) && de@ == t,
                            None => d.description is None,
                        }
                    },
                }
            },
        },
{
    let page = twitter_page_url(user, id);
    let pagenorm = match crate::urlkit::parse_url(page.as_str()) {
        Some(p) => p.serial,
        None => {
            let ch = crate::result::ErrorChain::message(
                String::from_str("page url is not valid from API"),
            );
            proof {
                crate::result::lemma_chain_messages_single(ch.layers@[0]);
                assert(ch.layers@ =~= seq![ch.layers@[0]]);
            }
            return Err(ch);
        },
    };
    let tweets = crate::jsontree::oget(api.get("globalObjects"), "tweets");
    let tw = crate::jsontree::oget(tweets, id);
    let entities = crate::jsontree::oget(tw, "entities");
    let media = crate::jsontree::oget(entities, "media");
    let ghost items = media_items(*api, id@);
    let mut images: Vec<crate::result::ScrapeImage> = Vec::new();
    match media {
        None => {
            proof {
                assert(items =~= Seq::<crate::jsontree::JsonVal>::empty());
            }
        },
        Some(m) => match m.as_list() {
            None => {
                proof {
                    assert(items =~= Seq::<crate::jsontree::JsonVal>::empty());
                }
            },
            Some(list) => {
                proof {
                    assert(items == list@);
                }
                let mut i: usize = 0;
                while i < list.len()
                    invariant
                        0 <= i <= list@.len(),
                        items == list@,
                        crate::result::image_pairs(images@) + twitter_images_from(
                            config,
                            items,
                            i as int,
                            pagenorm@,
                        ) == twitter_images_from(config, items, 0, pagenorm@),
                    decreases list@.len() - i,
                {
                    let ghost prevp = crate::result::image_pairs(images@);
                    let ghost here = twitter_images_from(config, items, i as int, pagenorm@);
                    let ghost next = twitter_images_from(config, items, i as int + 1, pagenorm@);
                    let orig_str = match list[i].get("media_url_https") {
                        Some(v) => match v.as_text() {
                            Some(t) => t.clone(),
                            None => String::new(),
                        },
                        None => String::new(),
                    };
                    let orig_url = match crate::urlkit::parse_url(orig_str.as_str()) {
                        Some(p) => p.serial,
                        None => pagenorm.clone(),
                    };
                    let noorig = trim_orig_suffix(orig_str.as_str());
                    let noorig_url = match crate::urlkit::parse_url(noorig.as_str()) {
                        Some(p) => p.serial,
                        None => pagenorm.clone(),
                    };
                    match crate::camo::camo_url(config, orig_url.as_str()) {
                        Err(_) => {
                            proof {
                                assert(here == next);
                            }
                        },
                        Ok(w) => {
                            let ghost wv = w@;
                            let ghost nv = noorig_url@;
                            images.push(
                                crate::result::ScrapeImage { url: noorig_url, camo_url: w },
                            );
                            proof {
                                assert(here == seq![(nv, wv)] + next);
                                assert(crate::result::image_pairs(images@) =~= prevp + seq![(nv, wv)]);
                                assert(crate::result::image_pairs(images@) + next =~= (prevp + here));
                            }
                        },
                    }
                    i = i + 1;
                }
                proof {
                    assert(twitter_images_from(config, items, list@.len() as int, pagenorm@)
                        =~= Seq::<(Seq<char>, Seq<char>)>::empty());
                    assert(crate::result::image_pairs(images@) + twitter_images_from(
                        config,
                        items,
                        list@.len() as int,
                        pagenorm@,
                    ) =~= crate::result::image_pairs(images@));
                }
            },
        },
    }
    proof {
        if items.len() == 0 {
            assert(twitter_images_from(config, items, 0, pagenorm@) =~= Seq::<
                (Seq<char>, Seq<char>),
            >::empty());
            assert(crate::result::image_pairs(images@) =~= Seq::<(Seq<char>, Seq<char>)>::empty());
        }
    }
    if images.len() == 0 {
        proof {
            assert(crate::result::image_pairs(images@) =~= Seq::<(Seq<char>, Seq<char>)>::empty());
        }
        return Ok(None);
    }
    let description = match crate::jsontree::oget(tw, "text") {
        Some(v) => match v.as_text() {
            Some(t) => Some(t.clone()),
            None => match crate::jsontree::oget(tw, "full_text") {
                Some(v2) => match v2.as_text() {
                    Some(t2) => Some(t2.clone()),
                    None => None,
                },
                None => None,
            },
        },
        None => match crate::jsontree::oget(tw, "full_text") {
            Some(v2) => match v2.as_text() {
                Some(t2) => Some(t2.clone()),
                None => None,
            },
            None => None,
        },
    };
    Ok(
        Some(
            crate::result::ScrapeResult::Found(
                crate::result::ScrapeResultData {
                    source_url: Some(pagenorm),
                    author_name: Some(String::from_str(user)),
                    additional_tags: None,
                    description,
                    images,
                },
            ),
        ),
    )
}

} // verus!
