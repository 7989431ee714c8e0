//! The art-community backend: URL recognition with the greedy
//! author/slug split, the GraphQL request body, and response extraction.
use vstd::prelude::*;

use crate::text;

verus! {

/// A post marker (`/art/`) at position `i` of `s`.
pub open spec fn art_marker_at(s: Seq<char>, i: int) -> bool {
    text::lit_at(s, i, "/art/"@)
}

/// The author and slug of a community URL: a scheme, the community host
/// and a `~`, then the greedy split at the last `/art/`.
pub open spec fn buzzly_parts(s: Seq<char>) -> Option<(Seq<char>, Seq<char>)> {
    match text::strip_scheme(s) {
        None => None,
        Some(r0) => match text::strip_lit(r0, "buzzly.art/~"@) {
            None => None,
            Some(r1) => {
                let base = s.len() - r1.len();
                match text::last_below(s, |a: Seq<char>, b: int| art_marker_at(a, b), base, s.len() as int) {
                    None => None,
                    Some(i) => Some(
                        (s.subrange(base, i), s.skip(i + "/art/"@.len())),
                    ),
                }
            },
        },
    }
}

/// Captures the author and slug of a community URL.
pub fn buzzly_url_parts(url: &str) -> (r: Option<(String, String)>)
    ensures
        match r {
            Some(p) => buzzly_parts(url@) matches Some(q) && p.0@ == q.0 && p.1@ == q.1,
            None => buzzly_parts(url@) is None,
        },
{
    let len = url.unicode_len();
    let ghost f = |a: Seq<char>, b: int| art_marker_at(a, b);
    let i0 = match text::match_scheme(url) {
        None => {
            return None;
        },
        Some(j) => j,
    };
    let i1 = match text::match_lit(url, i0, "buzzly.art/~") {
        None => {
            proof {
                text::lemma_lit_at_strip(url@, i0 as int, "buzzly.art/~"@);
            }
            return None;
        },
        Some(j) => {
            proof {
                text::lemma_lit_at_strip(url@, i0 as int, "buzzly.art/~"@);
            }
            j
        },
    };
    let mut j = i1;
    let mut found: Option<usize> = None;
    while j < len
        invariant
            i1 <= j <= len,
            len == url@.len(),
            match found {
                None => forall|t: int| i1 <= t < j ==> !#[trigger] f(url@, t),
                Some(ft) => i1 <= ft < j && f(url@, ft as int) && (forall|t: int|
                    ft < t < j ==> !#[trigger] f(url@, t)),
            },
            f == (|a: Seq<char>, b: int| art_marker_at(a, b)),
        decreases len - j,
    {
        if text::starts_with_at(url, j, "/art/") {
            found = Some(j);
        }
        j = j + 1;
    }
    proof {
        reveal_strlit("/art/");
        assert(!f(url@, len as int));
    }
    match found {
        None => {
            proof {
                text::lemma_last_below_none(url@, f, i1 as int, len as int);
            }
            None
        },
        Some(ft) => {
            proof {
                text::lemma_last_below_found(url@, f, i1 as int, ft as int, len as int);
            }
            let slug_start = ft + "/art/".unicode_len();
            let author = text::substr_copy(url, i1, ft);
            let slug = text::substr_copy(url, slug_start, len);
            proof {
                assert(url@.subrange(slug_start as int, len as int) =~= url@.skip(
                    ft + "/art/"@.len()));
            }
            Some((author, slug))
        },
    }
}

/// Classifies a community URL.
pub fn is_buzzlyart(url: &str) -> (r: bool)
    ensures
        r == (buzzly_parts(url@) is Some),
{
    buzzly_url_parts(url).is_some()
}

// ---------------------------------------------------------------------------
// The GraphQL request and response
// ---------------------------------------------------------------------------

/// The fixed query document the community API is asked.
pub open spec fn query_document() -> Seq<char> {
    "query GetSubmission($username: String!, $slug: String!) { fetchSubmissionByUsernameAndSlug(username: $username, slug: $slug) { submission { description path thumbnailPath tags account { username } } } }"@
}

/// The request body: operation name, the document, and the two escaped
/// variables.
pub open spec fn query_body_of(username: Seq<char>, slug: Seq<char>) -> Seq<char> {
    "{\"operationName\":\"GetSubmission\",\"query\":"@ + crate::wire::jstr(query_document())
        + ",\"variables\":{\"slug\":"@ + crate::wire::jstr(slug) + ",\"username\":"@
        + crate::wire::jstr(username) + "}}"@
}

/// A marker for the submission query; its body builder is the one
/// verified way the request is formed.
pub struct GetSubmission;

impl GetSubmission {
    /// Builds the JSON body of the submission query.
    pub fn build_query_body(username: &str, slug: &str) -> (r: String)
        ensures
            r@ == query_body_of(username@, slug@),
    {
        let mut out = String::from_str("{\"operationName\":\"GetSubmission\",\"query\":");
        crate::wire::push_jstr(
            &mut out,
            "query GetSubmission($username: String!, $slug: String!) { fetchSubmissionByUsernameAndSlug(username: $username, slug: $slug) { submission { description path thumbnailPath tags account { username } } } }",
        );
        out.append(",\"variables\":{\"slug\":");
        crate::wire::push_jstr(&mut out, slug);
        out.append(",\"username\":");
        crate::wire::push_jstr(&mut out, username);
        out.append("}}");
        out
    }
}

/// The submission node of a decoded response.
pub open spec fn buzzly_submission(root: crate::jsontree::JsonVal) -> Option<
    crate::jsontree::JsonVal,
> {
    crate::jsontree::ojget(
        crate::jsontree::ojget(
            crate::jsontree::jget(root, "data"@),
            "fetchSubmissionByUsernameAndSlug"@,
        ),
        "submission"@,
    )
}

/// The kept tag texts at and after `i`: text tags kept, null entries
/// dropped, anything else refusing the tag list.
pub open spec fn buzzly_tags(items: Seq<crate::jsontree::JsonVal>, i: int) -> Result<
    Seq<Seq<char>>,
    (),
>
    decreases items.len() - i,
{
    if !(0 <= i < items.len()) {
        Result::Ok(Seq::empty())
    } else {
        match items[i] {
            crate::jsontree::JsonVal::Null => buzzly_tags(items, i + 1),
            crate::jsontree::JsonVal::Text(s) => match buzzly_tags(items, i + 1) {
                Result::Err(e) => Result::Err(e),
                Result::Ok(t) => Result::Ok(seq![s@] + t),
            },
            _ => Result::Err(()),
        }
    }
}

/// Whether a submission node carries everything extraction reads: the
/// author, a text description, both asset paths building valid URLs,
/// and a tag list of texts and nulls whose thumbnail camouflages.
pub open spec fn buzzly_shape_ok(c: &crate::config::Configuration, sub: crate::jsontree::JsonVal) -> bool {
    &&& crate::jsontree::ojtext(
        crate::jsontree::ojget(crate::jsontree::jget(sub, "account"@), "username"@),
    ) is Some
    &&& crate::jsontree::ojtext(crate::jsontree::jget(sub, "description"@)) is Some
    &&& match crate::jsontree::ojtext(crate::jsontree::jget(sub, "path"@)) {
        None => false,
        Some(p) => crate::urlkit::url_norm("https://submissions.buzzly.art"@ + p) is Some,
    }
    &&& match crate::jsontree::ojtext(crate::jsontree::jget(sub, "thumbnailPath"@)) {
        None => false,
        Some(p) => match crate::urlkit::url_norm("https://submissions.buzzly.art"@ + p) {
            None => false,
            Some(tn) => crate::camo::camo_result(c, tn) is Ok,
        },
    }
    &&& match crate::jsontree::jget(sub, "tags"@) {
        Some(crate::jsontree::JsonVal::List(items)) => buzzly_tags(items@, 0) is Ok,
        _ => false,
    }
}

/// Extracts a community submission from a decoded response: the asset
/// and its camouflaged thumbnail, the author, the tag list with the
/// artist tag appended, and the given origin URL as source.
#[verifier::rlimit(60)]
pub fn buzzlyart_scrape(
    config: &crate::config::Configuration,
    origin_url: &str,
    root: &crate::jsontree::JsonVal,
) -> (r: Result<Option<crate::result::ScrapeResult>, crate::result::ErrorChain>)
    ensures
        r matches Err(ch) ==> crate::result::chain_messages(ch.layers@).len() == 1,
        crate::jsontree::ojget(
            crate::jsontree::jget(*root, "data"@),
            "fetchSubmissionByUsernameAndSlug"@,
        ) is None ==> (r matches Err(ch) && crate::result::chain_messages(ch.layers@) == seq![
            "missing data in response"@,
        ]),
        buzzly_submission(*root) matches Some(sub) ==> (buzzly_shape_ok(config, sub) ==> r
            is Ok),
        buzzly_submission(*root) matches Some(sub) ==> match r {
            Ok(opt) => opt matches Some(sr) && sr matches crate::result::ScrapeResult::Found(d)
                && {
                &&& crate::jsontree::ojtext(
                    crate::jsontree::ojget(
                        crate::jsontree::jget(sub, "account"@),
                        "username"@,
                    ),
                ) matches Some(user) && (d.author_name matches Some(an) && an@ == user) && (
                match crate::jsontree::jget(sub, "tags"@) {
                    Some(crate::jsontree::JsonVal::List(items)) => buzzly_tags(items@, 0)
                        matches Ok(kept) && d.additional_tags matches Some(tv)
                        && tv.deep_view() == kept + seq!["artist:"@ + user],
                    _ => false,
                })
                &&& crate::jsontree::ojtext(crate::jsontree::jget(sub, "description"@))
                    matches Some(de) && (d.description matches Some(ds) && ds@ == de)
                &&& d.source_url matches Some(su) && su@ == origin_url@
                &&& crate::jsontree::ojtext(crate::jsontree::jget(sub, "path"@)) matches Some(
                    pathv,
                ) && crate::jsontree::ojtext(crate::jsontree::jget(sub, "thumbnailPath"@))
                    matches Some(thumbv) && {
                    let full = "https://submissions.buzzly.art"@ + pathv;
                    let thumb = "https://submissions.buzzly.art"@ + thumbv;
                    &&& crate::urlkit::url_norm(full) matches Some(fn_) && crate::urlkit::url_norm(
                        thumb,
                    ) matches Some(tn) && crate::camo::camo_result(config, tn) matches Ok(w)
                        && crate::result::image_pairs(d.images@) == seq![(fn_, w)]
                }
            },
            Err(_) => true,
        },
{
    let data = match crate::jsontree::oget(root.get("data"), "fetchSubmissionByUsernameAndSlug") {
        None => {
            return Err(one_message("missing data in response"));
        },
        Some(v) => v,
    };
    let submission = match data.get("submission") {
        None => {
            return Err(one_message("missing submission metadata"));
        },
        Some(v) => v,
    };
    let account = match submission.get("account") {
        None => {
            return Err(one_message("missing account metadata"));
        },
        Some(v) => v,
    };
    let author_name = match account.get("username") {
        None => {
            return Err(one_message("missing account metadata"));
        },
        Some(v) => match v.as_text() {
            None => {
                return Err(one_message("missing account metadata"));
            },
            Some(t) => t.clone(),
        },
    };
    let description = match submission.get("description") {
        None => {
            return Err(one_message("missing submission metadata"));
        },
        Some(v) => match v.as_text() {
            None => {
                return Err(one_message("missing submission metadata"));
            },
            Some(t) => t.clone(),
        },
    };
    let path = match submission.get("path") {
        None => {
            return Err(one_message("missing image path"));
        },
        Some(v) => match v.as_text() {
            None => {
                return Err(one_message("missing image path"));
            },
            Some(t) => t,
        },
    };
    let thumb = match submission.get("thumbnailPath") {
        None => {
            return Err(one_message("missing image path"));
        },
        Some(v) => match v.as_text() {
            None => {
                return Err(one_message("missing image path"));
            },
            Some(t) => t,
        },
    };
    let mut full_url = String::from_str("https://submissions.buzzly.art");
    full_url.append(path.as_str());
    let mut thumb_url = String::from_str("https://submissions.buzzly.art");
    thumb_url.append(thumb.as_str());
    let full_norm = match crate::urlkit::parse_url(full_url.as_str()) {
        None => {
            return Err(one_message("invalid submission URL"));
        },
        Some(p) => p.serial,
    };
    let thumb_norm = match crate::urlkit::parse_url(thumb_url.as_str()) {
        None => {
            return Err(one_message("invalid submission URL"));
        },
        Some(p) => p.serial,
    };
    let camo = match crate::camo::camo_url(config, thumb_norm.as_str()) {
        Err(m) => {
            let ch = crate::result::ErrorChain::message(m);
            proof {
                crate::result::lemma_chain_messages_single(ch.layers@[0]);
                assert(ch.layers@ =~= seq![ch.layers@[0]]);
            }
            return Err(ch);
        },
        Ok(w) => w,
    };
    let tag_items = match submission.get("tags") {
        None => {
            return Err(one_message("missing tags fields"));
        },
        Some(v) => match v.as_list() {
            None => {
                return Err(one_message("missing tags fields"));
            },
            Some(items) => items,
        },
    };
    let mut tags: Vec<String> = Vec::new();
    let mut i: usize = 0;
    proof {
        assert(tags.deep_view() =~= Seq::<Seq<char>>::empty());
    }
    while i < tag_items.len()
        invariant
            0 <= i <= tag_items@.len(),
            crate::jsontree::ojget(
                crate::jsontree::jget(*root, "data"@),
                "fetchSubmissionByUsernameAndSlug"@,
            ) is Some,
            buzzly_submission(*root) matches Some(sub2) ==> match crate::jsontree::jget(
                sub2,
                "tags"@,
            ) {
                Some(lv) => lv matches crate::jsontree::JsonVal::List(items) && items@
                    == tag_items@,
                _ => false,
            },
            buzzly_tags(tag_items@, i as int) matches Ok(tail) ==> (buzzly_tags(tag_items@, 0)
                matches Ok(all) && tags.deep_view() + tail == all),
            buzzly_tags(tag_items@, i as int) is Err ==> buzzly_tags(tag_items@, 0) is Err,
        decreases tag_items@.len() - i,
    {
        let ghost here = buzzly_tags(tag_items@, i as int);
        let ghost next = buzzly_tags(tag_items@, i as int + 1);
        let ghost prevv = tags.deep_view();
        match &tag_items[i] {
            crate::jsontree::JsonVal::Null => {
                proof {
                    assert(here == next);
                }
            },
            crate::jsontree::JsonVal::Text(s) => {
                let ghost sv = s@;
                tags.push(s.clone());
                proof {
                    assert(tags.deep_view() =~= prevv + seq![sv]);
                    if next is Ok {
                        let t2 = next->Ok_0;
                        assert(here matches Ok(tl) && tl == seq![sv] + t2);
                        assert(prevv + (seq![sv] + t2) =~= (prevv + seq![sv]) + t2);
                    }
                }
            },
            _ => {
                proof {
                    assert(here is Err);
                }
                return Err(one_message("missing tags fields"));
            },
        }
        i = i + 1;
    }
    proof {
        assert(buzzly_tags(tag_items@, tag_items@.len() as int) matches Ok(e) && e.len() == 0);
        assert(tags.deep_view() + Seq::<Seq<char>>::empty() =~= tags.deep_view());
    }
    let ghost kept = tags.deep_view();
    let mut artist_tag = String::from_str("artist:");
    artist_tag.append(author_name.as_str());
    tags.push(artist_tag);
    proof {
        assert(tags.deep_view() =~= kept + seq!["artist:"@ + author_name@]);
    }
    let ghost fnv = full_norm@;
    let ghost wv = camo@;
    let mut images: Vec<crate::result::ScrapeImage> = Vec::new();
    images.push(crate::result::ScrapeImage { url: full_norm, camo_url: camo });
    proof {
        assert(crate::result::image_pairs(images@) =~= seq![(fnv, wv)]);
    }
    Ok(
        Some(
            crate::result::ScrapeResult::Found(
                crate::result::ScrapeResultData {
                    source_url: Some(String::from_str(origin_url)),
                    author_name: Some(author_name),
                    additional_tags: Some(tags),
                    description: Some(description),
                    images,
                },
            ),
        ),
    )
}

/// A fresh single-message readable chain.
fn one_message(m: &str) -> (r: crate::result::ErrorChain)
    ensures
        crate::result::chain_messages(r.layers@) == seq![m@],
{
    let ch = crate::result::ErrorChain::message(String::from_str(m));
    proof {
        crate::result::lemma_chain_messages_single(ch.layers@[0]);
        assert(ch.layers@ =~= seq![ch.layers@[0]]);
    }
    ch
}

} // verus!
