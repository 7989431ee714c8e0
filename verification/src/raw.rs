//! The raw-asset backend: classifies by the content type a HEAD probe
//! reported, and extracts the asset URL as its own single image.
use vstd::prelude::*;

use crate::camo;
use crate::config::Configuration;
use crate::result::{ErrorChain, ScrapeImage, ScrapeResult, ScrapeResultData};

verus! {

/// The outcome of the HEAD probe the raw classifier reads: the status
/// code and the content type the response carried, if any.
pub struct RawProbe {
    pub status: u16,
    pub content_type: Option<String>,
}

/// The fixed allow-list of raw asset MIME types.
pub open spec fn mime_allowed(ct: Seq<char>) -> bool {
    ct == "image/gif"@ || ct == "image/jpeg"@ || ct == "image/png"@ || ct == "image/svg"@ || ct
        == "image/svg+xml"@ || ct == "video/webm"@
}

/// What the raw classifier answers for a probe outcome: a non-200 answer
/// is a "no", a 200 answer is judged by its content type, and a 200
/// answer without a readable content type is an operational fault.
pub open spec fn raw_decision(status: u16, ct: Option<Seq<char>>) -> Result<bool, Seq<char>> {
    if status != 200 {
        Result::Ok(false)
    } else {
        match ct {
            Some(c) => Result::Ok(mime_allowed(c)),
            None => Result::Err("no content type on asset probe"@),
        }
    }
}

/// Classifies a URL as a raw asset from its probe outcome.
pub fn is_raw(probe: &RawProbe) -> (r: Result<bool, String>)
    ensures
        match r {
            Ok(b) => raw_decision(probe.status, match probe.content_type {
                Some(c) => Some(c@),
                None => None,
            }) == Result::<bool, Seq<char>>::Ok(b),
            Err(e) => raw_decision(probe.status, match probe.content_type {
                Some(c) => Some(c@),
                None => None,
            }) matches Err(m) && e@ == m,
        },
{
    if probe.status != 200 {
        return Ok(false);
    }
    match &probe.content_type {
        None => Err(String::from_str("no content type on asset probe")),
        Some(ct) => {
            let c = ct.as_str();
            Ok(
                crate::text::str_eq(c, "image/gif") || crate::text::str_eq(c, "image/jpeg")
                    || crate::text::str_eq(c, "image/png") || crate::text::str_eq(c, "image/svg")
                    || crate::text::str_eq(c, "image/svg+xml") || crate::text::str_eq(
                    c,
                    "video/webm",
                ),
            )
        },
    }
}

/// Extracts a raw asset: the URL is both the source and its own only
/// image, with camouflage applied to the image copy.
pub fn raw_scrape(config: &Configuration, url: &str) -> (r: Result<
    Option<ScrapeResult>,
    ErrorChain,
>)
    ensures
        match r {
            Ok(opt) => camo::camo_result(config, url@) matches Ok(w) && opt matches Some(sr) && sr
                matches ScrapeResult::Found(d) && d.source_url matches Some(su) && su@ == url@
                && d.author_name is None && d.additional_tags is None && d.description is None
                && d.images@.len() == 1 && d.images@[0].url@ == url@ && d.images@[0].camo_url@
                == w,
            Err(ch) => camo::camo_result(config, url@) matches Err(m) && crate::result::chain_messages(
                ch.layers@,
            ) == seq![m],
        },
{
    let camo_url = match camo::camo_url(config, url) {
        Ok(w) => w,
        Err(e) => {
            let ch = ErrorChain::message(e);
            proof {
                crate::result::lemma_chain_messages_single(ch.layers@[0]);
                assert(ch.layers@ =~= seq![ch.layers@[0]]);
            }
            return Err(ch);
        },
    };
    let mut images: Vec<ScrapeImage> = Vec::new();
    images.push(ScrapeImage { url: String::from_str(url), camo_url });
    Ok(
        Some(
            ScrapeResult::Found(
                ScrapeResultData {
                    source_url: Some(String::from_str(url)),
                    author_name: None,
                    additional_tags: None,
                    description: None,
                    images,
                },
            ),
        ),
    )
}

} // verus!
