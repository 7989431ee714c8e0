//! The mirror-instance backend: a fixed roster of alternate hostnames,
//! tweet-path recognition, and markup extraction with canonicalization
//! back to the primary platform.
use vstd::prelude::*;

use crate::text;

verus! {

/// The fixed roster of mirror hostnames.
pub open spec fn nitter_roster() -> Seq<Seq<char>> {
    seq![
        "nitter.net"@,
        "nitter.42l.fr"@,
        "nitter.nixnet.services"@,
        "nitter.mastodont.cat"@,
        "nitter.tedomum.net"@,
        "nitter.fdn.fr"@,
        "nitter.kavin.rocks"@,
        "tweet.lambda.dance"@,
        "nitter.cc"@,
        "nitter.vxempire.xyz"@,
        "nitter.unixfox.eu"@,
        "nitter.domain.glass"@,
        "nitter.eu"@,
        "nitter.ethibox.fr"@,
        "nitter.namazso.eu"@,
        "nitter.mailstation.de"@,
        "nitter.actionsack.com"@,
        "nitter.cattube.org"@,
        "nitter.dark.fail"@,
        "birdsite.xanny.family"@,
        "nitter.40two.app"@,
        "nitter.skrep.in"@,
    ]
}

/// The roster as strings, in roster order.
pub fn nitter_instances() -> (r: Vec<String>)
    ensures
        r.deep_view() == nitter_roster(),
{
    let mut v: Vec<String> = Vec::new();
    v.push(String::from_str("nitter.net"));
    v.push(String::from_str("nitter.42l.fr"));
    v.push(String::from_str("nitter.nixnet.services"));
    v.push(String::from_str("nitter.mastodont.cat"));
    v.push(String::from_str("nitter.tedomum.net"));
    v.push(String::from_str("nitter.fdn.fr"));
    v.push(String::from_str("nitter.kavin.rocks"));
    v.push(String::from_str("tweet.lambda.dance"));
    v.push(String::from_str("nitter.cc"));
    v.push(String::from_str("nitter.vxempire.xyz"));
    v.push(String::from_str("nitter.unixfox.eu"));
    v.push(String::from_str("nitter.domain.glass"));
    v.push(String::from_str("nitter.eu"));
    v.push(String::from_str("nitter.ethibox.fr"));
    v.push(String::from_str("nitter.namazso.eu"));
    v.push(String::from_str("nitter.mailstation.de"));
    v.push(String::from_str("nitter.actionsack.com"));
    v.push(String::from_str("nitter.cattube.org"));
    v.push(String::from_str("nitter.dark.fail"));
    v.push(String::from_str("birdsite.xanny.family"));
    v.push(String::from_str("nitter.40two.app"));
    v.push(String::from_str("nitter.skrep.in"));
    proof {
        assert(v.deep_view() =~= nitter_roster());
    }
    v
}

/// Membership of a host in the roster.
pub fn host_in_roster(h: &str) -> (r: bool)
    ensures
        r == nitter_roster().contains(h@),
{
    let roster = nitter_instances();
    let ghost rv = roster.deep_view();
    let mut i: usize = 0;
    while i < roster.len()
        invariant
            0 <= i <= roster@.len(),
            rv == roster.deep_view(),
            rv == nitter_roster(),
            rv.len() == roster@.len(),
            forall|t: int| 0 <= t < i ==> rv[t] != h@,
        decreases roster@.len() - i,
    {
        if text::str_eq(roster[i].as_str(), h) {
            proof {
                assert(rv[i as int] == h@);
            }
            return true;
        }
        i = i + 1;
    }
    proof {
        assert forall|t: int| 0 <= t < rv.len() implies rv[t] != h@ by {}
    }
    false
}

/// A tweet path fragment at position `i` of `s`: a slash, a non-empty
/// word run, `/status/`, and at least one digit.
pub open spec fn tweet_path_at(s: Seq<char>, i: int) -> bool {
    0 <= i < s.len() && s[i] == '/' && {
        let w = text::prefix_len(s.skip(i + 1), |c: char| text::is_word_char(c));
        w > 0 && match text::strip_lit(s.skip(i + 1 + w), "/status/"@) {
            None => false,
            Some(r) => text::prefix_len(r, |c: char| text::is_digit(c)) > 0,
        }
    }
}

/// Tests for a tweet path fragment at one position.
fn tweet_path_probe(s: &str, i: usize) -> (r: bool)
    requires
        i <= s@.len(),
    ensures
        r == tweet_path_at(s@, i as int),
{
    let len = s.unicode_len();
    if i >= len {
        return false;
    }
    if s.get_char(i) != '/' {
        return false;
    }
    let w = text::run_len(s, i + 1, text::CharKind::Word);
    proof {
        assert(text::kind_pred(text::CharKind::Word) == (|c: char| text::is_word_char(c)));
    }
    if w == 0 {
        return false;
    }
    match text::match_lit(s, i + 1 + w, "/status/") {
        None => {
            proof {
                text::lemma_lit_at_strip(s@, i + 1 + w as int, "/status/"@);
            }
            false
        },
        Some(j) => {
            proof {
                text::lemma_lit_at_strip(s@, i + 1 + w as int, "/status/"@);
            }
            let d = text::run_len(s, j, text::CharKind::Digit);
            proof {
                assert(text::kind_pred(text::CharKind::Digit) == (|c: char| text::is_digit(c)));
            }
            d > 0
        },
    }
}

/// Whether the path holds a tweet fragment anywhere.
pub fn has_tweet_path(path: &str) -> (r: bool)
    ensures
        r == exists|i: int| tweet_path_at(path@, i),
{
    let len = path.unicode_len();
    let mut i: usize = 0;
    while i < len
        invariant
            0 <= i <= len,
            len == path@.len(),
            forall|t: int| 0 <= t < i ==> !#[trigger] tweet_path_at(path@, t),
        decreases len - i,
    {
        if tweet_path_probe(path, i) {
            proof {
                assert(tweet_path_at(path@, i as int));
            }
            return true;
        }
        i = i + 1;
    }
    proof {
        assert forall|t: int| !#[trigger] tweet_path_at(path@, t) by {}
    }
    false
}

/// The mirror classification: the host is in the roster and the path
/// holds a tweet fragment.
pub open spec fn nitter_match(host: Option<Seq<char>>, path: Seq<char>) -> bool {
    match host {
        None => false,
        Some(h) => nitter_roster().contains(h) && exists|i: int| tweet_path_at(path, i),
    }
}

// ---------------------------------------------------------------------------
// Extraction
// ---------------------------------------------------------------------------

/// The URL the extractor fetches: the input, with its host swapped for
/// the preferred mirror when one is configured.
pub fn nitter_fetch_url(config: &crate::config::Configuration, url: &str) -> (r: Result<
    String,
    crate::result::ErrorChain,
>)
    ensures
        match r {
            Ok(u) => match config.preferred_nitter_instance_host {
                Some(h) => crate::urlkit::url_with_host(url@, h@) matches Some(w) && u@ == w,
                None => u@ == url@,
            },
            Err(ch) => config.preferred_nitter_instance_host matches Some(h)
                && crate::urlkit::url_with_host(url@, h@) is None
                && crate::result::chain_messages(ch.layers@) == seq![
                "could not set preferred host"@,
            ],
        },
{
    match &config.preferred_nitter_instance_host {
        None => Ok(String::from_str(url)),
        Some(h) => match crate::urlkit::set_url_host(url, h.as_str()) {
            Some(u) => Ok(u),
            None => {
                let ch = crate::result::ErrorChain::message(
                    String::from_str("could not set preferred host"),
                );
                proof {
                    crate::result::lemma_chain_messages_single(ch.layers@[0]);
                    assert(ch.layers@ =~= seq![ch.layers@[0]]);
                }
                Err(ch)
            },
        },
    }
}

/// The author shown on the tweet page: the username text with its
/// leading `@` marks removed.
pub open spec fn nitter_author(html: Seq<char>) -> Seq<char> {
    let t = crate::htmlsel::html_text(html, "div.main-tweet a.username"@);
    t.skip(text::prefix_len(t, |c: char| c == '@'))
}

/// The source URL the extractor reports: the canonical "open in the
/// primary platform" link when the page carries one (normalized), and
/// the fetched URL itself otherwise.
pub open spec fn nitter_source(html: Seq<char>, fetch_url: Seq<char>) -> Option<Seq<char>> {
    match crate::htmlsel::html_attr(html, "[title=\"Open in Twitter\"]"@, "href"@) {
        Some(h) => crate::urlkit::url_norm(h),
        None => Some(fetch_url),
    }
}

/// The attachment images, in page order: each one the original URL with
/// its path swapped for the attachment link, beside its camouflage. An
/// attachment without a link is skipped; a failing rewrite or
/// camouflage fails the extraction with the given messages.
pub open spec fn nitter_images_from(
    c: &crate::config::Configuration,
    orig: Seq<char>,
    html: Seq<char>,
    i: int,
    n: int,
) -> Result<Seq<(Seq<char>, Seq<char>)>, Seq<Seq<char>>>
    decreases n - i,
{
    if i >= n {
        Result::Ok(Seq::empty())
    } else {
        match crate::htmlsel::html_nth_attr(
            html,
            "div.main-tweet div.attachments div.image"@,
            i,
            "a.still-image"@,
            "href"@,
        ) {
            None => nitter_images_from(c, orig, html, i + 1, n),
            Some(p) => match crate::urlkit::url_with_path(orig, p) {
                None => Result::Err(seq!["invalid image URL"@]),
                Some(u2) => match crate::camo::camo_result(c, u2) {
                    Result::Err(m) => Result::Err(seq!["could not camo url"@, m]),
                    Result::Ok(w) => match nitter_images_from(c, orig, html, i + 1, n) {
                        Result::Err(e) => Result::Err(e),
                        Result::Ok(tail) => Result::Ok(seq![(u2, w)] + tail),
                    },
                },
            },
        }
    }
}

/// Extracts a post from fetched mirror markup: author, description,
/// attachments, and the source URL canonicalized back to the primary
/// platform when the page names it.
pub fn nitter_scrape(
    config: &crate::config::Configuration,
    fetch_url: &str,
    original_url: &str,
    html: &str,
) -> (r: Result<Option<crate::result::ScrapeResult>, crate::result::ErrorChain>)
    ensures
        match r {
            Ok(opt) => opt matches Some(sr) && sr matches crate::result::ScrapeResult::Found(d) && {
                &&& nitter_source(html@, fetch_url@) matches Some(src) && (d.source_url matches
                    Some(su) && su@ == src)
                &&& d.author_name matches Some(a) && a@ == nitter_author(html@)
                &&& d.description matches Some(de) && de@ == crate::htmlsel::html_first_text(
                    html@,
                    "div.tweet-content"@,
                )
                &&& d.additional_tags is None
                &&& nitter_images_from(
                    config,
                    original_url@,
                    html@,
                    0,
                    crate::htmlsel::html_count(html@, "div.main-tweet div.attachments div.image"@),
                ) matches Ok(imgs) && d.images@.len() == imgs.len() && (forall|k: int|
                    0 <= k < imgs.len() ==> (#[trigger] d.images@[k]).url@ == imgs[k].0
                        && d.images@[k].camo_url@ == imgs[k].1)
            },
            Err(ch) => {
                ||| (nitter_source(html@, fetch_url@) is None
                    && crate::result::chain_messages(ch.layers@) == seq!["source link invalid"@])
                ||| (nitter_images_from(
                    config,
                    original_url@,
                    html@,
                    0,
                    crate::htmlsel::html_count(html@, "div.main-tweet div.attachments div.image"@),
                ) matches Err(msgs) && crate::result::chain_messages(ch.layers@) == msgs)
            },
        },
{
    let author_full = crate::htmlsel::select_text(html, "div.main-tweet a.username");
    let at_run = text::run_len(author_full.as_str(), 0, text::CharKind::AtSign);
    let author = text::substr_copy(
        author_full.as_str(),
        at_run,
        author_full.as_str().unicode_len(),
    );
    proof {
        assert(text::kind_pred(text::CharKind::AtSign) == (|c: char| c == '@'));
        assert(author_full@.skip(0) =~= author_full@);
        assert(author_full@.subrange(
            at_run as int,
            author_full@.len() as int,
        ) =~= author_full@.skip(at_run as int));
    }
    let description = crate::htmlsel::select_first_text(html, "div.tweet-content");
    let source_url = match crate::htmlsel::select_first_attr(
        html,
        "[title=\"Open in Twitter\"]",
        "href",
    ) {
        None => String::from_str(fetch_url),
        Some(href) => match crate::urlkit::parse_url(href.as_str()) {
            Some(p) => p.serial,
            None => {
                let ch = crate::result::ErrorChain::message(
                    String::from_str("source link invalid"),
                );
                proof {
                    crate::result::lemma_chain_messages_single(ch.layers@[0]);
                    assert(ch.layers@ =~= seq![ch.layers@[0]]);
                }
                return Err(ch);
            },
        },
    };
    let n = crate::htmlsel::select_count(html, "div.main-tweet div.attachments div.image");
    let mut images: Vec<crate::result::ScrapeImage> = Vec::new();
    let mut i: usize = 0;
    let ghost total = n as int;
    while i < n
        invariant
            0 <= i <= n,
            total == n as int,
            total == crate::htmlsel::html_count(
                html@,
                "div.main-tweet div.attachments div.image"@,
            ),
            nitter_images_from(config, original_url@, html@, i as int, total) matches Ok(tail)
                ==> (nitter_images_from(config, original_url@, html@, 0, total) matches Ok(all)
                && {
                &&& images@.len() + tail.len() == all.len()
                &&& forall|k: int|
                    0 <= k < images@.len() ==> (#[trigger] images@[k]).url@ == all[k].0
                        && images@[k].camo_url@ == all[k].1
                &&& forall|k: int|
                    0 <= k < tail.len() ==> all[images@.len() + k] == #[trigger] tail[k]
            }),
            nitter_images_from(config, original_url@, html@, i as int, total) matches Err(e)
                ==> nitter_images_from(config, original_url@, html@, 0, total) matches Err(e2)
                && e == e2,
        decreases n - i,
    {
        let ghost here = nitter_images_from(config, original_url@, html@, i as int, total);
        let ghost next = nitter_images_from(config, original_url@, html@, i as int + 1, total);
        match crate::htmlsel::select_nth_inner_attr(
            html,
            "div.main-tweet div.attachments div.image",
            i,
            "a.still-image",
            "href",
        ) {
            None => {
                proof {
                    assert(here == next);
                }
            },
            Some(p) => {
                match crate::urlkit::set_url_path(original_url, p.as_str()) {
                    None => {
                        let ch = crate::result::ErrorChain::message(
                            String::from_str("invalid image URL"),
                        );
                        proof {
                            crate::result::lemma_chain_messages_single(ch.layers@[0]);
                            assert(ch.layers@ =~= seq![ch.layers@[0]]);
                            assert(here matches Err(e) && e == seq!["invalid image URL"@]);
                        }
                        return Err(ch);
                    },
                    Some(u2) => {
                        match crate::camo::camo_url(config, u2.as_str()) {
                            Err(m) => {
                                let ghost mv = m@;
                                let ch = crate::result::ErrorChain::message(m).wrap(
                                    String::from_str("could not camo url"),
                                );
                                proof {
                                    crate::result::lemma_two_layer_messages(ch);
                                    assert(here matches Err(e) && e == seq![
                                        "could not camo url"@,
                                        mv,
                                    ]);
                                }
                                return Err(ch);
                            },
                            Ok(w) => {
                                let ghost prev = images@;
                                let ghost u2v = u2@;
                                let ghost wv = w@;
                                images.push(
                                    crate::result::ScrapeImage { url: u2, camo_url: w },
                                );
                                proof {
                                    if next is Ok {
                                        let tail2 = next->Ok_0;
                                        assert(here matches Ok(tl) && tl == seq![(u2v, wv)]
                                            + tail2);
                                        let tl = here->Ok_0;
                                        let whole = nitter_images_from(
                                            config,
                                            original_url@,
                                            html@,
                                            0,
                                            total,
                                        );
                                        assert(whole is Ok);
                                        let all = whole->Ok_0;
                                        assert(all[prev.len() as int] == tl[0]);
                                        assert(tl[0] == (u2v, wv));
                                        assert forall|k: int|
                                            0 <= k < tail2.len() implies all[prev.len() + 1 + k]
                                            == tail2[k] by {
                                            assert(all[prev.len() + (k + 1)] == tl[k + 1]);
                                            assert(tl[k + 1] == tail2[k]);
                                        }
                                        assert forall|k: int|
                                            0 <= k < images@.len() implies (
                                        #[trigger] images@[k]).url@ == all[k].0
                                            && images@[k].camo_url@ == all[k].1 by {
                                            if k < prev.len() {
                                                assert(prev[k] == images@[k]);
                                            } else {
                                                assert(images@[k].url@ == u2v);
                                                assert(all[k] == tl[0]);
                                            }
                                        }
                                    }
                                }
                            },
                        }
                    },
                }
            },
        }
        i = i + 1;
    }
    proof {
        assert(nitter_images_from(config, original_url@, html@, total, total) matches Ok(e)
            && e.len() == 0);
    }
    Ok(
        Some(
            crate::result::ScrapeResult::Found(
                crate::result::ScrapeResultData {
                    source_url: Some(source_url),
                    author_name: Some(author),
                    additional_tags: None,
                    description: Some(description),
                    images,
                },
            ),
        ),
    )
}

/// Mirror-instance canonicalization: when the page names its canonical
/// primary-platform link, the reported source URL depends on the markup
/// alone — scraping the same post through any mirror hostname yields the
/// same source.
pub proof fn lemma_mirror_canonicalization(html: Seq<char>, f1: Seq<char>, f2: Seq<char>)
    requires
        crate::htmlsel::html_attr(html, "[title=\"Open in Twitter\"]"@, "href"@) is Some,
    ensures
        nitter_source(html, f1) == nitter_source(html, f2),
{
}

/// Classifies a URL by host roster and tweet path.
pub fn is_nitter(host: Option<&String>, path: &str) -> (r: bool)
    ensures
        r == nitter_match(
            match host {
                Some(h) => Some(h@),
                None => None,
            },
            path@,
        ),
{
    match host {
        None => false,
        Some(h) => host_in_roster(h.as_str()) && has_tweet_path(path),
    }
}

} // verus!
