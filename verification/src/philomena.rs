//! The structured-API booru backend: classification by URL shape and
//! extraction from the JSON image record.
use vstd::prelude::*;

use crate::derpibooru;
use crate::jsontree;
use crate::jsontree::JsonVal;
use crate::result::{ErrorChain, ScrapeImage, ScrapeResult, ScrapeResultData};
use crate::text;

verus! {

/// Classifies: the known booru variant decides.
pub fn is_philomena(url: &str) -> (r: bool)
    ensures
        r == (derpibooru::derpi_id(url@) is Some),
{
    derpibooru::is_derpibooru(url)
}

/// The metadata API URL a page URL resolves to. A URL outside the known
/// booru is refused here, before any request is issued.
pub fn philomena_api_url(url: &str) -> (r: Result<String, ErrorChain>)
    ensures
        match r {
            Ok(api) => derpibooru::derpi_id(url@) matches Some(id) && api@
                == derpibooru::derpi_api_url(id),
            Err(ch) => derpibooru::derpi_id(url@) is None && crate::result::chain_messages(
                ch.layers@,
            ) == seq!["Tried URL that isn't known philomena"@],
        },
{
    if !derpibooru::is_derpibooru(url) {
        let ch = ErrorChain::message(
            String::from_str("Tried URL that isn't known philomena"),
        );
        proof {
            crate::result::lemma_chain_messages_single(ch.layers@[0]);
            assert(ch.layers@ =~= seq![ch.layers@[0]]);
        }
        return Err(ch);
    }
    match derpibooru::url_to_api(url) {
        Ok(api) => Ok(api),
        Err(ch) => {
            proof {
                assert(false);
            }
            Err(ch)
        },
    }
}

/// The first tag with the artist prefix, its prefix stripped. A tag
/// that is not text stops the record from parsing, handled separately.
pub open spec fn first_artist(tags: Seq<JsonVal>, i: int) -> Option<Seq<char>>
    decreases tags.len() - i,
{
    if !(0 <= i < tags.len()) {
        None
    } else {
        match jsontree::jtext(tags[i]) {
            Some(t) => if "artist:"@.is_prefix_of(t) {
                Some(t.skip("artist:"@.len() as int))
            } else {
                first_artist(tags, i + 1)
            },
            None => first_artist(tags, i + 1),
        }
    }
}

/// Whether every tag is a text node, as the typed record asks.
pub open spec fn all_texts(tags: Seq<JsonVal>) -> bool {
    forall|k: int| 0 <= k < tags.len() ==> jsontree::jtext(#[trigger] tags[k]) is Some
}

/// The image record of the API response.
pub open spec fn philo_image(resp: JsonVal) -> Option<JsonVal> {
    jsontree::jget(resp, "image"@)
}

/// An optional field of the typed record: absent, null, or text;
/// anything else fails the record's deserialization.
pub open spec fn text_or_absent(resp: JsonVal, k: Seq<char>) -> bool {
    match jsontree::ojget(philo_image(resp), k) {
        None => true,
        Some(v) => v is Null || v is Text,
    }
}

/// Whether the response has the shape the typed record asks: an image
/// object carrying a text view URL, a list of text tags, and optional
/// fields that are absent, null or text.
pub open spec fn philo_shape_ok(resp: JsonVal) -> bool {
    &&& philo_image(resp) is Some
    &&& jsontree::ojtext(jsontree::ojget(philo_image(resp), "view_url"@)) is Some
    &&& match jsontree::ojget(philo_image(resp), "tags"@) {
        Some(JsonVal::List(tags)) => all_texts(tags@),
        _ => false,
    }
    &&& text_or_absent(resp, "source_url"@)
    &&& text_or_absent(resp, "uploader"@)
    &&& text_or_absent(resp, "description"@)
}

/// The optional text field `k` of the image record, with a blank value
/// already reduced to nothing.
pub open spec fn philo_text_field(resp: JsonVal, k: Seq<char>) -> Option<Seq<char>> {
    match jsontree::ojtext(jsontree::ojget(philo_image(resp), k)) {
        None => None,
        Some(t) => if text::blank(t) {
            None
        } else {
            Some(t)
        },
    }
}

/// Extracts the image record of a decoded booru API response: the view
/// asset with its camouflage, the artist tag, and the optional source
/// and description, blank fields dropped.
pub fn philomena_scrape(config: &crate::config::Configuration, resp: &JsonVal) -> (r: Result<
    Option<ScrapeResult>,
    ErrorChain,
>)
    ensures
        !philo_shape_ok(*resp) ==> (r matches Err(ch) && crate::result::chain_messages(
            ch.layers@,
        ) == seq!["could not parse philomena"@]),
        philo_shape_ok(*resp) ==> {
            let view = jsontree::ojtext(jsontree::ojget(philo_image(*resp), "view_url"@))->0;
            match crate::urlkit::url_norm(view) {
                None => r matches Err(ch) && crate::result::chain_messages(ch.layers@) == seq![
                    "view url invalid"@,
                ],
                Some(vn) => match crate::camo::camo_result(config, vn) {
                    Result::Err(m) => r matches Err(ch) && crate::result::chain_messages(
                        ch.layers@,
                    ) == seq![m],
                    Result::Ok(w) => match philo_text_field(*resp, "source_url"@) {
                        Some(su) if crate::urlkit::url_norm(su) is None => r matches Err(ch)
                            && crate::result::chain_messages(ch.layers@) == seq![
                            "source url invalid"@,
                        ],
                        _ => r matches Ok(opt) && opt matches Some(sr) && sr
                            matches ScrapeResult::Found(d) && {
                            &&& crate::result::image_pairs(d.images@) == seq![(vn, w)]
                            &&& match philo_text_field(*resp, "source_url"@) {
                                None => d.source_url is None,
                                Some(su) => d.source_url matches Some(s2) && s2@
                                    == crate::urlkit::url_norm(su)->0,
                            }
                            &&& match philo_text_field(*resp, "description"@) {
                                None => d.description is None,
                                Some(de) => d.description matches Some(d2) && d2@ == de,
                            }
                            &&& match jsontree::ojget(philo_image(*resp), "tags"@) {
                                Some(JsonVal::List(tags)) => match first_artist(tags@, 0) {
                                    None => d.author_name is None,
                                    Some(a) => d.author_name matches Some(an) && an@ == a,
                                },
                                _ => false,
                            }
                            &&& d.additional_tags is None
                        },
                    },
                },
            }
        },
{
    let image = match resp.get("image") {
        None => {
            return Err(parse_error());
        },
        Some(v) => v,
    };
    let view = match jsontree::oget(Some(image), "view_url") {
        None => {
            return Err(parse_error());
        },
        Some(v) => match v.as_text() {
            None => {
                return Err(parse_error());
            },
            Some(t) => t,
        },
    };
    let tags = match jsontree::oget(Some(image), "tags") {
        None => {
            return Err(parse_error());
        },
        Some(v) => match v.as_list() {
            None => {
                return Err(parse_error());
            },
            Some(items) => items,
        },
    };
    // every tag must be text, and the first artist tag names the author
    let mut author: Option<String> = None;
    let mut i: usize = 0;
    while i < tags.len()
        invariant
            0 <= i <= tags@.len(),
            match jsontree::ojget(philo_image(*resp), "tags"@) {
                Some(lv) => lv matches JsonVal::List(items) && items@ == tags@,
                _ => false,
            },
            philo_image(*resp) is Some,
            forall|k: int| 0 <= k < i ==> jsontree::jtext(#[trigger] tags@[k]) is Some,
            match author {
                None => first_artist(tags@, 0) == first_artist(tags@, i as int),
                Some(a) => first_artist(tags@, 0) == Some(a@),
            },
        decreases tags@.len() - i,
    {
        let ghost here = first_artist(tags@, i as int);
        match tags[i].as_text() {
            None => {
                return Err(parse_error());
            },
            Some(t) => {
                if author.is_none() {
                    if text::starts_with_at(t.as_str(), 0, "artist:") {
                        proof {
                            text::lemma_lit_at_strip(t@, 0, "artist:"@);
                            assert(t@.skip(0) =~= t@);
                        }
                        let alen = "artist:".unicode_len();
                        let a = text::substr_copy(t.as_str(), alen, t.as_str().unicode_len());
                        proof {
                            assert(a@ =~= t@.skip("artist:"@.len() as int));
                        }
                        author = Some(a);
                    } else {
                        proof {
                            text::lemma_lit_at_strip(t@, 0, "artist:"@);
                            assert(t@.skip(0) =~= t@);
                            assert(here == first_artist(tags@, i as int + 1));
                        }
                    }
                }
            },
        }
        i = i + 1;
    }
    // the typed record's optional fields must be absent, null or text
    match jsontree::oget(Some(image), "uploader") {
        None => {},
        Some(v) => match v {
            JsonVal::Null => {},
            JsonVal::Text(_) => {},
            _ => {
                return Err(parse_error());
            },
        },
    }
    let source_text: Option<String> = match jsontree::oget(Some(image), "source_url") {
        None => None,
        Some(v) => match v {
            JsonVal::Null => None,
            JsonVal::Text(t) => {
                if text::is_blank(t.as_str()) {
                    None
                } else {
                    Some(t.clone())
                }
            },
            _ => {
                return Err(parse_error());
            },
        },
    };
    let description = match jsontree::oget(Some(image), "description") {
        None => None,
        Some(v) => match v {
            JsonVal::Null => None,
            JsonVal::Text(t) => {
                if text::is_blank(t.as_str()) {
                    None
                } else {
                    Some(t.clone())
                }
            },
            _ => {
                return Err(parse_error());
            },
        },
    };
    let view_norm = match crate::urlkit::parse_url(view.as_str()) {
        None => {
            let ch = ErrorChain::message(String::from_str("view url invalid"));
            proof {
                crate::result::lemma_chain_messages_single(ch.layers@[0]);
                assert(ch.layers@ =~= seq![ch.layers@[0]]);
            }
            return Err(ch);
        },
        Some(p) => p.serial,
    };
    let camo = match crate::camo::camo_url(config, view_norm.as_str()) {
        Err(m) => {
            let ch = ErrorChain::message(m);
            proof {
                crate::result::lemma_chain_messages_single(ch.layers@[0]);
                assert(ch.layers@ =~= seq![ch.layers@[0]]);
            }
            return Err(ch);
        },
        Ok(w) => w,
    };
    let source_url = match source_text {
        None => None,
        Some(t) => match crate::urlkit::parse_url(t.as_str()) {
            None => {
                let ch = ErrorChain::message(String::from_str("source url invalid"));
                proof {
                    crate::result::lemma_chain_messages_single(ch.layers@[0]);
                    assert(ch.layers@ =~= seq![ch.layers@[0]]);
                }
                return Err(ch);
            },
            Some(p) => Some(p.serial),
        },
    };
    let ghost vn = view_norm@;
    let ghost wv = camo@;
    let mut images: Vec<ScrapeImage> = Vec::new();
    images.push(ScrapeImage { url: view_norm, camo_url: camo });
    proof {
        assert(crate::result::image_pairs(images@) =~= seq![(vn, wv)]);
    }
    Ok(
        Some(
            ScrapeResult::Found(
                ScrapeResultData {
                    source_url,
                    author_name: author,
                    additional_tags: None,
                    description,
                    images,
                },
            ),
        ),
    )
}

/// The shape failure every malformed response reduces to.
fn parse_error() -> (r: ErrorChain)
    ensures
        crate::result::chain_messages(r.layers@) == seq!["could not parse philomena"@],
{
    let ch = ErrorChain::message(String::from_str("could not parse philomena"));
    proof {
        crate::result::lemma_chain_messages_single(ch.layers@[0]);
        assert(ch.layers@ =~= seq![ch.layers@[0]]);
    }
    ch
}

} // verus!
