//! The booru variant of the structured-API backend: recognizes image
//! URLs on the primary booru host and converts them to its JSON API.
use vstd::prelude::*;

use crate::result::ErrorChain;
use crate::text;

verus! {

/// The image id of a booru URL: `https://derpibooru.org/`, an optional
/// `images/`, then the longest run of digits, at least one.
pub open spec fn derpi_id(s: Seq<char>) -> Option<Seq<char>> {
    match text::strip_lit(s, "https://derpibooru.org/"@) {
        None => None,
        Some(r0) => {
            let r1 = match text::strip_lit(r0, "images/"@) {
                Some(r) => r,
                None => r0,
            };
            let d = text::prefix_len(r1, |c: char| text::is_digit(c));
            if d > 0 {
                Some(r1.take(d))
            } else {
                None
            }
        },
    }
}

/// Finds the image id in a booru URL.
pub fn derpi_image_id(url: &str) -> (r: Option<String>)
    ensures
        match r {
            Some(id) => derpi_id(url@) matches Some(v) && id@ == v,
            None => derpi_id(url@) is None,
        },
{
    let len = url.unicode_len();
    proof {
        assert(url@.skip(0) =~= url@);
    }
    let i0 = match text::match_lit(url, 0, "https://derpibooru.org/") {
        None => {
            proof {
                text::lemma_lit_at_strip(url@, 0, "https://derpibooru.org/"@);
            }
            return None;
        },
        Some(j) => j,
    };
    proof {
        text::lemma_lit_at_strip(url@, 0, "https://derpibooru.org/"@);
    }
    let i1 = match text::match_lit(url, i0, "images/") {
        None => {
            proof {
                text::lemma_lit_at_strip(url@, i0 as int, "images/"@);
            }
            i0
        },
        Some(j) => {
            proof {
                text::lemma_lit_at_strip(url@, i0 as int, "images/"@);
            }
            j
        },
    };
    let d = text::run_len(url, i1, text::CharKind::Digit);
    proof {
        assert(text::kind_pred(text::CharKind::Digit) == (|c: char| text::is_digit(c)));
    }
    if d == 0 {
        return None;
    }
    let id = text::substr_copy(url, i1, i1 + d);
    proof {
        text::lemma_skip_take(url@, i1 as int, d as int);
    }
    Some(id)
}

/// Classifies a URL as belonging to the booru.
pub fn is_derpibooru(url: &str) -> (r: bool)
    ensures
        r == (derpi_id(url@) is Some),
{
    derpi_image_id(url).is_some()
}

/// The API form of a booru image URL.
pub open spec fn derpi_api_url(id: Seq<char>) -> Seq<char> {
    "https://derpibooru.org/api/v1/json/images/"@ + id
}

/// Converts a booru page URL to its JSON API URL; a URL that does not
/// match the booru shape is refused.
pub fn url_to_api(url: &str) -> (r: Result<String, ErrorChain>)
    ensures
        match r {
            Ok(api) => derpi_id(url@) matches Some(id) && api@ == derpi_api_url(id),
            Err(ch) => derpi_id(url@) is None && crate::result::chain_messages(ch.layers@)
                == seq!["did not match derpibooru URL"@],
        },
{
    match derpi_image_id(url) {
        Some(id) => {
            let mut api = String::from_str("https://derpibooru.org/api/v1/json/images/");
            api.append(id.as_str());
            Ok(api)
        },
        None => {
            let ch = ErrorChain::message(String::from_str("did not match derpibooru URL"));
            proof {
                crate::result::lemma_chain_messages_single(ch.layers@[0]);
                assert(ch.layers@ =~= seq![ch.layers@[0]]);
            }
            Err(ch)
        },
    }
}

} // verus!
