//! The dispatcher: runs every backend's classification over the gathered
//! evidence, resolves ties by the fixed backend order, and annotates
//! extraction failures with the owning backend.
use vstd::prelude::*;

use crate::buzzly;
use crate::derpibooru;
use crate::deviantart;
use crate::nitter;
use crate::raw;
use crate::raw::RawProbe;
use crate::result::{ErrorChain, ScrapeResult};
use crate::text;
use crate::tumblr;
use crate::twitter;
use crate::urlkit::UrlParts;

verus! {

/// The closed set of backends, in tie-break order: the most specific
/// platform formats come first, the generic raw-asset fallback last.
#[derive(Clone, Copy, Debug, PartialEq, Eq, Structural)]
pub enum Backend {
    Twitter,
    Nitter,
    Tumblr,
    DeviantArt,
    Philomena,
    Buzzly,
    Raw,
}

/// The tie-break rank of a backend: lower wins.
pub open spec fn ordinal(b: Backend) -> int {
    match b {
        Backend::Twitter => 0,
        Backend::Nitter => 1,
        Backend::Tumblr => 2,
        Backend::DeviantArt => 3,
        Backend::Philomena => 4,
        Backend::Buzzly => 5,
        Backend::Raw => 6,
    }
}

/// One classification answer per backend.
pub struct ClassifyOutcome {
    pub twitter: bool,
    pub nitter: bool,
    pub tumblr: bool,
    pub deviantart: bool,
    pub philomena: bool,
    pub buzzly: bool,
    pub raw: bool,
}

/// The answer a given backend gave.
pub open spec fn flag_of(c: ClassifyOutcome, b: Backend) -> bool {
    match b {
        Backend::Twitter => c.twitter,
        Backend::Nitter => c.nitter,
        Backend::Tumblr => c.tumblr,
        Backend::DeviantArt => c.deviantart,
        Backend::Philomena => c.philomena,
        Backend::Buzzly => c.buzzly,
        Backend::Raw => c.raw,
    }
}

/// The backend the dispatcher picks: the first answering backend in
/// tie-break order, none when no backend answered.
pub open spec fn pick(c: ClassifyOutcome) -> Option<Backend> {
    if c.twitter {
        Some(Backend::Twitter)
    } else if c.nitter {
        Some(Backend::Nitter)
    } else if c.tumblr {
        Some(Backend::Tumblr)
    } else if c.deviantart {
        Some(Backend::DeviantArt)
    } else if c.philomena {
        Some(Backend::Philomena)
    } else if c.buzzly {
        Some(Backend::Buzzly)
    } else if c.raw {
        Some(Backend::Raw)
    } else {
        None
    }
}

/// Applies the tie-break policy to a set of classification answers.
pub fn resolve(c: &ClassifyOutcome) -> (r: Option<Backend>)
    ensures
        r == pick(*c),
{
    if c.twitter {
        Some(Backend::Twitter)
    } else if c.nitter {
        Some(Backend::Nitter)
    } else if c.tumblr {
        Some(Backend::Tumblr)
    } else if c.deviantart {
        Some(Backend::DeviantArt)
    } else if c.philomena {
        Some(Backend::Philomena)
    } else if c.buzzly {
        Some(Backend::Buzzly)
    } else if c.raw {
        Some(Backend::Raw)
    } else {
        None
    }
}

// ---------------------------------------------------------------------------
// Laws of the tie-break
// ---------------------------------------------------------------------------

/// Tie-break determinism: among the answering backends, the one picked
/// answered, and no answering backend has a lower rank — reproducibly,
/// since `pick` is a function of the answers alone.
pub proof fn lemma_tie_break_lowest(c: ClassifyOutcome, b: Backend)
    requires
        pick(c) == Some(b),
    ensures
        flag_of(c, b),
        forall|b2: Backend| flag_of(c, b2) ==> ordinal(b) <= #[trigger] ordinal(b2),
{
}

/// No answer resolves to no backend, and the other way round.
pub proof fn lemma_no_match_none(c: ClassifyOutcome)
    ensures
        (pick(c) is None) <==> (forall|b: Backend| !#[trigger] flag_of(c, b)),
{
    if pick(c) is None {
        assert forall|b: Backend| !#[trigger] flag_of(c, b) by {
            assert(!c.twitter && !c.nitter && !c.tumblr && !c.deviantart && !c.philomena
                && !c.buzzly && !c.raw);
        }
    }
    if forall|b: Backend| !#[trigger] flag_of(c, b) {
        assert(!flag_of(c, Backend::Twitter) && !flag_of(c, Backend::Nitter) && !flag_of(
            c,
            Backend::Tumblr,
        ) && !flag_of(c, Backend::DeviantArt) && !flag_of(c, Backend::Philomena) && !flag_of(
            c,
            Backend::Buzzly,
        ) && !flag_of(c, Backend::Raw));
    }
}

// ---------------------------------------------------------------------------
// Classification over gathered evidence
// ---------------------------------------------------------------------------

/// The probe outcomes the two network-using classifiers read. The front
/// door gathers these concurrently with nothing else depending on them.
pub struct ClassifyEvidence {
    /// The HEAD probe of the raw-asset classifier.
    pub raw: Result<RawProbe, String>,
    /// The resolved addresses of the URL's host, for the blog-platform
    /// fallback.
    pub tumblr_dns: Result<Vec<Option<u32>>, String>,
}

/// Classifies a URL against every backend and applies the tie-break.
/// Fails closed: an operational fault in any one classifier fails the
/// whole resolution (the blog-platform resolver is reported first, the
/// raw probe second).
pub fn get_scraper(parts: &UrlParts, ev: &ClassifyEvidence) -> (r: Result<
    Option<Backend>,
    ErrorChain,
>)
    ensures
        match r {
            Ok(sel) => {
                &&& (tumblr::tumblr_id(parts.serial@) is None && parts.host is Some
                    ==> ev.tumblr_dns is Ok)
                &&& ev.raw is Ok
                &&& exists|c: ClassifyOutcome| sel == pick(c) && #[trigger] classified(parts, ev, c)
            },
            Err(ch) => {
                ||| (tumblr::tumblr_id(parts.serial@) is None && parts.host is Some && (
                ev.tumblr_dns matches Err(e) && crate::result::chain_messages(ch.layers@) == seq![
                    e@,
                ]))
                ||| (ev.raw matches Err(e) && crate::result::chain_messages(ch.layers@) == seq![
                    "raw asset probe failed"@,
                    e@,
                ])
                ||| (ev.raw matches Ok(probe) && (raw::raw_decision(
                    probe.status,
                    match probe.content_type {
                        Some(ct) => Some(ct@),
                        None => None,
                    },
                ) matches Err(m) && crate::result::chain_messages(ch.layers@) == seq![
                    "raw asset probe failed"@,
                    m,
                ]))
            },
        },
{
    let twitter = twitter::is_twitter(parts.serial.as_str());
    let nitter = nitter::is_nitter(parts.host.as_ref(), parts.path.as_str());
    let tumblr = match tumblr::is_tumblr(parts, &ev.tumblr_dns) {
        Ok(b) => b,
        Err(ch) => {
            return Err(ch);
        },
    };
    let deviantart = deviantart::is_deviantart(parts.host.as_ref());
    let philomena = derpibooru::is_derpibooru(parts.serial.as_str());
    let buzzly = buzzly::is_buzzlyart(parts.serial.as_str());
    let raw = match &ev.raw {
        Ok(probe) => match raw::is_raw(probe) {
            Ok(b) => b,
            Err(e) => {
                let ch = ErrorChain::message(e).wrap(
                    String::from_str("raw asset probe failed"),
                );
                proof {
                    crate::result::lemma_two_layer_messages(ch);
                }
                return Err(ch);
            },
        },
        Err(e) => {
            let ch = ErrorChain::message(e.clone()).wrap(
                String::from_str("raw asset probe failed"),
            );
            proof {
                crate::result::lemma_two_layer_messages(ch);
            }
            return Err(ch);
        },
    };
    let out = ClassifyOutcome { twitter, nitter, tumblr, deviantart, philomena, buzzly, raw };
    let sel = resolve(&out);
    proof {
        assert(classified(parts, ev, out));
        assert(exists|c: ClassifyOutcome| sel == pick(c) && #[trigger] classified(parts, ev, c));
    }
    Ok(sel)
}

/// What it means for a set of answers to be the classification of the
/// URL over the gathered evidence.
pub open spec fn classified(parts: &UrlParts, ev: &ClassifyEvidence, c: ClassifyOutcome) -> bool {
    &&& c.twitter == (twitter::twitter_parts(parts.serial@) is Some)
    &&& c.nitter == nitter::nitter_match(
        match parts.host {
            Some(h) => Some(h@),
            None => None,
        },
        parts.path@,
    )
    &&& (tumblr::tumblr_id(parts.serial@) is Some ==> c.tumblr)
    &&& (tumblr::tumblr_id(parts.serial@) is None && parts.host is None ==> !c.tumblr)
    &&& (tumblr::tumblr_id(parts.serial@) is None && parts.host is Some ==> (ev.tumblr_dns
        matches Ok(addrs) ==> c.tumblr == exists|i: int|
        0 <= i < addrs@.len() && ((#[trigger] addrs@[i]) matches Some(a) && tumblr::tumblr_net(a))))
    &&& c.deviantart == match parts.host {
        Some(h) => deviantart::da_host(h@),
        None => false,
    }
    &&& c.philomena == (derpibooru::derpi_id(parts.serial@) is Some)
    &&& c.buzzly == (buzzly::buzzly_parts(parts.serial@) is Some)
    &&& (ev.raw matches Ok(probe) ==> raw::raw_decision(
        probe.status,
        match probe.content_type {
            Some(ct) => Some(ct@),
            None => None,
        },
    ) == Result::<bool, Seq<char>>::Ok(c.raw))
}

// ---------------------------------------------------------------------------
// Backend-identifying error context
// ---------------------------------------------------------------------------

/// The context annotation each backend's failures are wrapped with.
pub open spec fn context_of(b: Backend) -> Seq<char> {
    match b {
        Backend::Twitter => "Twitter parser failed"@,
        Backend::Nitter => "Nitter parser failed"@,
        Backend::Tumblr => "Tumblr parser failed"@,
        Backend::DeviantArt => "DeviantArt parser failed"@,
        Backend::Philomena => "Philomena parser failed"@,
        Backend::Buzzly => "Buzzly parser failed"@,
        Backend::Raw => "Raw parser failed"@,
    }
}

/// Wraps an extraction outcome with the owning backend's context: a
/// success passes through untouched, a failure gains one outer layer.
pub fn wrap_extraction(b: Backend, outcome: Result<Option<ScrapeResult>, ErrorChain>) -> (r:
    Result<Option<ScrapeResult>, ErrorChain>)
    ensures
        outcome matches Ok(v) ==> r == Result::<Option<ScrapeResult>, ErrorChain>::Ok(v),
        outcome matches Err(ch) ==> r matches Err(ch2) && crate::result::chain_messages(
            ch2.layers@,
        ) == seq![context_of(b)] + crate::result::chain_messages(ch.layers@),
{
    match outcome {
        Ok(v) => Ok(v),
        Err(ch) => {
            let ghost inner = ch.layers@;
            let context = match b {
                Backend::Twitter => String::from_str("Twitter parser failed"),
                Backend::Nitter => String::from_str("Nitter parser failed"),
                Backend::Tumblr => String::from_str("Tumblr parser failed"),
                Backend::DeviantArt => String::from_str("DeviantArt parser failed"),
                Backend::Philomena => String::from_str("Philomena parser failed"),
                Backend::Buzzly => String::from_str("Buzzly parser failed"),
                Backend::Raw => String::from_str("Raw parser failed"),
            };
            let wrapped = ch.wrap(context);
            proof {
                crate::result::lemma_chain_messages_prepend(wrapped.layers@[0], inner);
                assert(seq![wrapped.layers@[0]] + inner =~= wrapped.layers@);
            }
            Err(wrapped)
        },
    }
}

} // verus!
