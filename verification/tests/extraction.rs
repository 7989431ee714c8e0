//! Per-backend extraction on concrete documents and responses.
use artscraper::config::Configuration;
use artscraper::jsontree::{json_decode, JsonVal};
use artscraper::result::ScrapeResult;

fn obj(fields: Vec<(&str, JsonVal)>) -> JsonVal {
    JsonVal::Object(
        fields
            .into_iter()
            .map(|(k, v)| (String::from(k), v))
            .collect(),
    )
}

fn text(s: &str) -> JsonVal {
    JsonVal::Text(String::from(s))
}

#[test]
fn twitter_url_captures() {
    let got =
        artscraper::twitter::twitter_status_parts("https://mobile.twitter.com/TheOnion/status/1372594920427491335?s=20");
    assert_eq!(
        got,
        Some((String::from("TheOnion"), String::from("1372594920427491335")))
    );
    assert!(artscraper::twitter::is_twitter(
        "http://twitter.com/a_b/status/1/"
    ));
    assert!(!artscraper::twitter::is_twitter(
        "https://example.com/a/status/1"
    ));
    assert_eq!(
        artscraper::twitter::twitter_page_url("TheOnion", "137"),
        "https://twitter.com/TheOnion/status/137"
    );
    assert_eq!(
        artscraper::twitter::twitter_api_url("137"),
        "https://api.twitter.com/2/timeline/conversation/137.json?tweet_mode=extended"
    );
}

#[test]
fn twitter_script_and_bearer_captures() {
    let page = "noise =\"https://abs.twimg.com/responsive-web/client-web-legacy/main.3a9f2b.js\" more";
    assert_eq!(
        artscraper::twitter::find_script_url(page).as_deref(),
        Some("https://abs.twimg.com/responsive-web/client-web-legacy/main.3a9f2b.js")
    );
    let script = "x{token:\"AAAAAAAAAAAAAxyz123\"}";
    assert_eq!(
        artscraper::twitter::find_bearer(script).as_deref(),
        Some("AAAAAAAAAAAAAxyz123")
    );
    assert_eq!(artscraper::twitter::find_bearer("nothing here"), None);
}

#[test]
fn twitter_guest_token() {
    let good = obj(vec![("guest_token", text("12345"))]);
    assert_eq!(
        artscraper::twitter::parse_guest_token(&good).unwrap(),
        "12345"
    );
    let missing = obj(vec![("other", text("x"))]);
    let err = artscraper::twitter::parse_guest_token(&missing).unwrap_err();
    match ScrapeResult::from_err(&err) {
        ScrapeResult::Failed(e) => {
            assert_eq!(e.errors, vec![String::from("no GT in twitter API response")])
        }
        _ => panic!(),
    }
    let bad = obj(vec![("guest_token", JsonVal::Num(5))]);
    let err2 = artscraper::twitter::parse_guest_token(&bad).unwrap_err();
    match ScrapeResult::from_err(&err2) {
        ScrapeResult::Failed(e) => assert_eq!(
            e.errors,
            vec![String::from("invalid GT in twitter API response")]
        ),
        _ => panic!(),
    }
}

#[test]
fn test_twitter_scraper() {
    // a timeline response with one media entry carrying a size marker
    let tweet = obj(vec![
        ("text", text("Deal Alert")),
        (
            "entities",
            obj(vec![(
                "media",
                JsonVal::List(vec![obj(vec![(
                    "media_url_https",
                    text("https://pbs.twimg.com/media/EwxvzkEXAAMFg7k.jpg:orig"),
                )])]),
            )]),
        ),
    ]);
    let api = obj(vec![(
        "globalObjects",
        obj(vec![("tweets", obj(vec![("1532144541523910658", tweet)]))]),
    )]);
    let config = Configuration::default();
    let got = artscraper::twitter::twitter_scrape(
        &config,
        &api,
        "theprincessxena",
        "1532144541523910658",
    )
    .unwrap()
    .expect("got none response from scraper");
    match got {
        ScrapeResult::Found(d) => {
            assert_eq!(
                d.source_url.as_deref(),
                Some("https://twitter.com/theprincessxena/status/1532144541523910658")
            );
            assert_eq!(d.author_name.as_deref(), Some("theprincessxena"));
            assert_eq!(d.description.as_deref(), Some("Deal Alert"));
            assert_eq!(d.images.len(), 1);
            assert_eq!(
                d.images[0].url,
                "https://pbs.twimg.com/media/EwxvzkEXAAMFg7k.jpg"
            );
        }
        _ => panic!("expected a successful extraction"),
    }
}

#[test]
fn twitter_without_media_extracts_nothing() {
    let api = obj(vec![("globalObjects", obj(vec![("tweets", obj(vec![]))]))]);
    let config = Configuration::default();
    let got = artscraper::twitter::twitter_scrape(&config, &api, "u", "1").unwrap();
    assert!(got.is_none());
}

#[test]
fn tumblr_url_and_api() {
    assert_eq!(
        artscraper::tumblr::tumblr_post_id(
            "https://tcn1205.tumblr.com/post/186904081532/in-wonderland"
        )
        .as_deref(),
        Some("186904081532")
    );
    assert_eq!(
        artscraper::tumblr::tumblr_post_id("https://no.example/nothing"),
        None
    );
    assert_eq!(
        artscraper::tumblr::tumblr_api_url("tcn1205.tumblr.com", "186904081532", None),
        "https://api.tumblr.com/v2/blog/tcn1205.tumblr.com/posts/photo?id=186904081532&api_key="
    );
}

#[test]
fn tumblr_size_rewrites() {
    let url = "https://64.media.tumblr.com/abc/tumblr_x_500.png";
    assert_eq!(
        artscraper::tumblr::resize_url(url, "1280"),
        "https://64.media.tumblr.com/abc/tumblr_x_1280.png"
    );
    // a URL without a size marker is left alone
    assert_eq!(
        artscraper::tumblr::resize_url("https://a.example/x.png", "1280"),
        "https://a.example/x.png"
    );
    let cands = artscraper::tumblr::upsize_candidates(url);
    assert_eq!(cands.len(), 7);
    assert!(cands[0].ends_with("_1280.png"));
    assert!(cands[6].ends_with("_75.png"));
    // the first tier that exists wins: the largest one probed alive
    let oks = vec![false, true, false, true, false, false, false];
    assert_eq!(
        artscraper::tumblr::pick_upsized(&cands, &oks).as_deref(),
        Some("https://64.media.tumblr.com/abc/tumblr_x_540.png")
    );
}

#[test]
fn tumblr_text_post_media_scan() {
    let body = "<p>look</p> https://64.media.tumblr.com/cf3b6e/4d7e68-e98e59/s640x480/1db4f.png done";
    assert_eq!(
        artscraper::tumblr::find_first_media(body).as_deref(),
        Some("https://64.media.tumblr.com/cf3b6e/4d7e68-e98e59/s640x480/1db4f.png")
    );
    assert_eq!(artscraper::tumblr::find_first_media("no media"), None);
}

#[test]
fn test_text_post_tumblr() {
    let post = obj(vec![
        ("type", text("text")),
        ("post_url", text("https://witchtaunter.tumblr.com/post/182898769998/yes-this-is-horse")),
        ("blog_name", text("witchtaunter")),
        ("summary", text("Yes, this is horse")),
        (
            "body",
            text("pic https://64.media.tumblr.com/fbe494/4d7e68-e98e59/s640x480/1db4f.png"),
        ),
    ]);
    let resp = obj(vec![
        ("meta", obj(vec![("status", JsonVal::Num(200))])),
        ("response", obj(vec![("posts", JsonVal::List(vec![post]))])),
    ]);
    let config = Configuration::default();
    let got = artscraper::tumblr::tumblr_scrape(&config, &resp, &vec![])
        .unwrap()
        .expect("got none response from scraper");
    match got {
        ScrapeResult::Found(d) => {
            assert_eq!(
                d.source_url.as_deref(),
                Some("https://witchtaunter.tumblr.com/post/182898769998/yes-this-is-horse")
            );
            assert_eq!(d.author_name.as_deref(), Some("witchtaunter"));
            assert_eq!(d.description.as_deref(), Some("Yes, this is horse"));
            assert_eq!(d.images.len(), 1);
            assert_eq!(
                d.images[0].url,
                "https://64.media.tumblr.com/fbe494/4d7e68-e98e59/s640x480/1db4f.png"
            );
        }
        _ => panic!("expected a successful extraction"),
    }
}

#[test]
fn test_tumblr_scraper() {
    let base = "https://64.media.tumblr.com/cf3b6e5981e0aaf0f1be305429faa6c4/tumblr_pw0dzrDNvN1vlyxx7o1_1280.png";
    let photo = obj(vec![
        ("original_size", obj(vec![("url", text(base))])),
        (
            "alt_sizes",
            JsonVal::List(vec![obj(vec![
                ("width", JsonVal::Num(400)),
                (
                    "url",
                    text("https://64.media.tumblr.com/cf3b6e5981e0aaf0f1be305429faa6c4/tumblr_pw0dzrDNvN1vlyxx7o1_400.png"),
                ),
            ])]),
        ),
    ]);
    let post = obj(vec![
        ("type", text("photo")),
        ("post_url", text("https://tcn1205.tumblr.com/post/186904081532/in-wonderland")),
        ("blog_name", text("tcn1205")),
        ("summary", text("In Wonderland.")),
        ("photos", JsonVal::List(vec![photo])),
    ]);
    let resp = obj(vec![
        ("meta", obj(vec![("status", JsonVal::Num(200))])),
        ("response", obj(vec![("posts", JsonVal::List(vec![post]))])),
    ]);
    // the largest tier exists upstream
    let oks = vec![vec![true, false, false, false, false, false, false]];
    let config = Configuration::default();
    let got = artscraper::tumblr::tumblr_scrape(&config, &resp, &oks)
        .unwrap()
        .expect("got none response from scraper");
    match got {
        ScrapeResult::Found(d) => {
            assert_eq!(
                d.source_url.as_deref(),
                Some("https://tcn1205.tumblr.com/post/186904081532/in-wonderland")
            );
            assert_eq!(d.author_name.as_deref(), Some("tcn1205"));
            assert_eq!(d.additional_tags, None);
            assert_eq!(d.description.as_deref(), Some("In Wonderland."));
            assert_eq!(d.images.len(), 1);
            assert_eq!(d.images[0].url, base);
            // the camouflage is applied to the width-400 preview
            assert_eq!(
                d.images[0].camo_url,
                "https://64.media.tumblr.com/cf3b6e5981e0aaf0f1be305429faa6c4/tumblr_pw0dzrDNvN1vlyxx7o1_400.png"
            );
        }
        _ => panic!("expected a successful extraction"),
    }
}

#[test]
fn test_deviantart_scraper() {
    let body = "<link data-rh=\"true\" rel=\"preload\" href=\"https://images-wixmp-ed30a86b8c4ca887773594c2.wixmp.com/f/39da62f1-b049-4f7a-b10b-4cc5167cb9a2/dds6l68-3084d503-abbf-4f6d-bd82-7a36298e0106.png\" as=\"image\"/>\
                <link data-rh=\"true\" rel=\"canonical\" href=\"https://www.deviantart.com/the-park/art/Comm-Baseball-cap-derpy-833396912\"/>";
    let config = Configuration::default();
    let (data, camo) = artscraper::deviantart::extract_data(&config, body).unwrap();
    let images = artscraper::deviantart::try_new_hires(data.images.clone()).unwrap();
    // no tiered fill path: the suffix strategies append nothing
    assert_eq!(images.len(), 1);
    let cands = artscraper::deviantart::intermediary_candidates(&images);
    assert_eq!(cands.len(), 1);
    assert!(cands[0].is_some());
    // nothing answered the probes, and the legacy guess got no redirect
    let images = artscraper::deviantart::try_intermediary_hires(images, &vec![false]).unwrap();
    let source = data.source_url.clone().unwrap();
    let guess = artscraper::deviantart::old_hires_url(&source).unwrap();
    assert!(guess.starts_with("http://orig01.deviantart.net/x_by_x-d"));
    assert!(guess.ends_with(".png"));
    let images = artscraper::deviantart::apply_old_hires(images, &camo, None).unwrap();
    let got = artscraper::deviantart::deviantart_finalize(data, images)
        .expect("got none response from scraper");
    match got {
        ScrapeResult::Found(d) => {
            assert_eq!(
                d.source_url.as_deref(),
                Some("https://www.deviantart.com/the-park/art/Comm-Baseball-cap-derpy-833396912")
            );
            assert_eq!(d.author_name.as_deref(), Some("the-park"));
            assert_eq!(d.description, None);
            assert_eq!(d.images.len(), 1);
            assert_eq!(
                d.images[0].url,
                "https://images-wixmp-ed30a86b8c4ca887773594c2.wixmp.com/f/39da62f1-b049-4f7a-b10b-4cc5167cb9a2/dds6l68-3084d503-abbf-4f6d-bd82-7a36298e0106.png"
            );
            assert_eq!(d.images[0].camo_url, d.images[0].url);
        }
        _ => panic!("expected a successful extraction"),
    }
}

#[test]
fn tumblr_non_200_is_an_error() {
    let resp = obj(vec![("meta", obj(vec![("status", JsonVal::Num(500))]))]);
    let config = Configuration::default();
    let err = artscraper::tumblr::tumblr_scrape(&config, &resp, &vec![]).unwrap_err();
    match ScrapeResult::from_err(&err) {
        ScrapeResult::Failed(e) => {
            assert_eq!(e.errors, vec![String::from("tumblr returned non-200 error")])
        }
        _ => panic!(),
    }
}

#[test]
fn deviantart_page_captures() {
    let body = "head <link data-rh=\"true\" rel=\"preload\" href=\"https://images-wixmp-ed30a8.wixmp.com/f/39da62/dds6l68.png?token=x\" as=\"image\"/> \
                <link data-rh=\"true\" rel=\"canonical\" href=\"https://www.deviantart.com/the-park/art/Comm-833396912\"/> tail";
    assert_eq!(
        artscraper::deviantart::find_image_link(body).as_deref(),
        Some("https://images-wixmp-ed30a8.wixmp.com/f/39da62/dds6l68.png?token=x")
    );
    let source = artscraper::deviantart::find_source_link(body).unwrap();
    assert_eq!(
        source,
        "https://www.deviantart.com/the-park/art/Comm-833396912"
    );
    assert_eq!(
        artscraper::deviantart::find_artist(&source).as_deref(),
        Some("the-park")
    );
    assert_eq!(
        artscraper::deviantart::find_serial(&source).as_deref(),
        Some("833396912")
    );
}

#[test]
fn deviantart_extract_data_builds_record() {
    let body = "<link data-rh=\"true\" rel=\"preload\" href=\"https://images-wixmp-ed30a8.wixmp.com/f/39da62/dds6l68.png\" as=\"image\"/>\
                <link data-rh=\"true\" rel=\"canonical\" href=\"https://www.deviantart.com/the-park/art/Comm-833396912\"/>";
    let config = Configuration::default();
    let (data, camo) = artscraper::deviantart::extract_data(&config, body).unwrap();
    assert_eq!(
        data.source_url.as_deref(),
        Some("https://www.deviantart.com/the-park/art/Comm-833396912")
    );
    assert_eq!(data.author_name.as_deref(), Some("the-park"));
    assert_eq!(data.images.len(), 1);
    assert_eq!(
        camo,
        "https://images-wixmp-ed30a8.wixmp.com/f/39da62/dds6l68.png"
    );
}

#[test]
fn deviantart_hires_strategies() {
    // the legacy base-36 guess
    assert_eq!(artscraper::digits::base36_str(35), "z");
    assert_eq!(artscraper::digits::base36_str(36), "10");
    let built =
        artscraper::deviantart::old_hires_url("https://www.deviantart.com/x/art/a-37").unwrap();
    assert_eq!(built, "http://orig01.deviantart.net/x_by_x-d11.png");
    // the intermediary rebuild
    let cand = artscraper::deviantart::intermediary_candidate(
        "https://images-wixmp-ed30a8.wixmp.com/f/39da62/dds6l68.png?token=x",
    );
    assert_eq!(
        cand.as_deref(),
        Some("https://images-wixmp-ed30a8.wixmp.com/intermediary/39da62/dds6l68.png")
    );
    // the quality rewrite
    let jpg = "https://images-wixmp-a.wixmp.com/f/39da62/name-x.jpg/v1/fill/w_400,h_400,q_70,strp\\/name_by_x-dabc.jpg";
    let up = artscraper::deviantart::jpg_upsized(jpg).unwrap();
    assert_eq!(
        up,
        "https://images-wixmp-a.wixmp.com/f/39da62/name-x.jpg/v1/fill/w_400,h_400,q_100,strp\\/name_by_x-dabc.jpg"
    );
}

#[test]
fn test_derpibooru_scraper() {
    assert!(artscraper::derpibooru::is_derpibooru(
        "https://derpibooru.org/images/1426211"
    ));
    assert!(artscraper::derpibooru::is_derpibooru(
        "https://derpibooru.org/1426211"
    ));
    assert_eq!(
        artscraper::derpibooru::url_to_api("https://derpibooru.org/images/1426211").unwrap(),
        "https://derpibooru.org/api/v1/json/images/1426211"
    );
    let image = obj(vec![
        ("tags", JsonVal::List(vec![text("safe"), text("artist:zacatron94")])),
        ("source_url", text("https://derpibooru.org/source")),
        ("description", text("   ")),
        ("view_url", text("https://derpicdn.net/img/view/2017/5/1/1426211__safe.png")),
    ]);
    let resp = obj(vec![("image", image)]);
    let config = Configuration::default();
    let got = artscraper::philomena::philomena_scrape(&config, &resp)
        .unwrap()
        .expect("got none response from scraper");
    match got {
        ScrapeResult::Found(d) => {
            assert_eq!(d.author_name.as_deref(), Some("zacatron94"));
            assert_eq!(d.source_url.as_deref(), Some("https://derpibooru.org/source"));
            // a blank description is dropped
            assert_eq!(d.description, None);
            assert_eq!(d.images.len(), 1);
            assert_eq!(
                d.images[0].url,
                "https://derpicdn.net/img/view/2017/5/1/1426211__safe.png"
            );
            assert_eq!(d.images[0].camo_url, d.images[0].url);
        }
        _ => panic!("expected a successful extraction"),
    }
}

#[test]
fn philomena_rejects_malformed_records() {
    let config = Configuration::default();
    let err = artscraper::philomena::philomena_scrape(&config, &obj(vec![])).unwrap_err();
    match ScrapeResult::from_err(&err) {
        ScrapeResult::Failed(e) => {
            assert_eq!(e.errors, vec![String::from("could not parse philomena")])
        }
        _ => panic!(),
    }
    // a wrongly-typed optional field also fails the record, as the
    // typed deserialization did
    let image = obj(vec![
        ("tags", JsonVal::List(vec![text("safe")])),
        ("source_url", JsonVal::Num(7)),
        ("view_url", text("https://derpicdn.net/img/view/1.png")),
    ]);
    let err2 = artscraper::philomena::philomena_scrape(&config, &obj(vec![("image", image)]))
        .unwrap_err();
    match ScrapeResult::from_err(&err2) {
        ScrapeResult::Failed(e) => {
            assert_eq!(e.errors, vec![String::from("could not parse philomena")])
        }
        _ => panic!(),
    }
}

#[test]
fn philomena_refuses_foreign_urls_before_any_request() {
    let err = artscraper::philomena::philomena_api_url("https://example.net/images/1")
        .unwrap_err();
    match ScrapeResult::from_err(&err) {
        ScrapeResult::Failed(e) => assert_eq!(
            e.errors,
            vec![String::from("Tried URL that isn't known philomena")]
        ),
        _ => panic!(),
    }
    assert_eq!(
        artscraper::philomena::philomena_api_url("https://derpibooru.org/images/1426211")
            .unwrap(),
        "https://derpibooru.org/api/v1/json/images/1426211"
    );
}

#[test]
fn test_buzzlyart_scraper() {
    let url = "https://buzzly.art/~mothnmag/art/fizzy";
    let parts = artscraper::buzzly::buzzly_url_parts(url).unwrap();
    assert_eq!(parts.0, "mothnmag");
    assert_eq!(parts.1, "fizzy");
    let submission = obj(vec![
        ("description", text("<p>heres some fizzy art</p>")),
        ("path", text("/IMAGE/542f4f12.png")),
        ("thumbnailPath", text("/IMAGE/542f4f12_thumbnail.webp")),
        (
            "tags",
            JsonVal::List(vec![text("mlp"), JsonVal::Null, text("fizzy")]),
        ),
        ("account", obj(vec![("username", text("mothnmag"))])),
    ]);
    let root = obj(vec![(
        "data",
        obj(vec![(
            "fetchSubmissionByUsernameAndSlug",
            obj(vec![("submission", submission)]),
        )]),
    )]);
    let config = Configuration::default();
    let got = artscraper::buzzly::buzzlyart_scrape(&config, url, &root)
        .unwrap()
        .expect("got none response from scraper");
    match got {
        ScrapeResult::Found(d) => {
            assert_eq!(d.source_url.as_deref(), Some(url));
            assert_eq!(d.author_name.as_deref(), Some("mothnmag"));
            assert_eq!(
                d.additional_tags,
                Some(vec![
                    String::from("mlp"),
                    String::from("fizzy"),
                    String::from("artist:mothnmag")
                ])
            );
            assert_eq!(d.description.as_deref(), Some("<p>heres some fizzy art</p>"));
            assert_eq!(d.images.len(), 1);
            assert_eq!(
                d.images[0].url,
                "https://submissions.buzzly.art/IMAGE/542f4f12.png"
            );
            assert_eq!(
                d.images[0].camo_url,
                "https://submissions.buzzly.art/IMAGE/542f4f12_thumbnail.webp"
            );
        }
        _ => panic!("expected a successful extraction"),
    }
}

#[test]
fn buzzly_query_body_is_escaped_json() {
    let body = artscraper::buzzly::GetSubmission::build_query_body("user\"name", "slug");
    let parsed: serde_json::Value = serde_json::from_str(&body).unwrap();
    assert_eq!(parsed["operationName"].as_str().unwrap(), "GetSubmission");
    assert_eq!(parsed["variables"]["username"].as_str().unwrap(), "user\"name");
    assert_eq!(parsed["variables"]["slug"].as_str().unwrap(), "slug");
    assert!(parsed["query"].as_str().unwrap().contains("fetchSubmissionByUsernameAndSlug"));
}

#[test]
fn json_decoder_builds_trees() {
    let v = json_decode("{\"a\":[1,\"two\",null,true]}").unwrap();
    let a = v.get("a").unwrap();
    assert_eq!(a.at(0).unwrap().as_num(), Some(1));
    assert_eq!(a.at(1).unwrap().as_text().map(|s| s.as_str()), Some("two"));
    assert!(matches!(a.at(2), Some(JsonVal::Null)));
    assert!(matches!(a.at(3), Some(JsonVal::Boolean(true))));
    assert!(json_decode("{nope").is_none());
}

#[test]
fn url_wrappers_normalize() {
    let p = artscraper::urlkit::parse_url("HTTPS://ExAmPlE.org/Path?q=1").unwrap();
    assert_eq!(p.serial, "https://example.org/Path?q=1");
    assert_eq!(p.host.as_deref(), Some("example.org"));
    assert_eq!(p.path, "/Path");
    assert!(artscraper::urlkit::parse_url("not a url").is_none());
    assert_eq!(
        artscraper::urlkit::set_url_host("https://nitter.net/a/status/1", "nitter.eu").as_deref(),
        Some("https://nitter.eu/a/status/1")
    );
    assert_eq!(
        artscraper::urlkit::set_url_path("https://nitter.net/x", "/pic/media").as_deref(),
        Some("https://nitter.net/pic/media")
    );
}

#[test]
fn decimal_parse_has_exact_limits() {
    let s = "9223372036854775807";
    assert_eq!(
        artscraper::digits::dec_parse(s, 0, s.len()),
        Some(9223372036854775807)
    );
    let t = "9223372036854775808";
    assert_eq!(artscraper::digits::dec_parse(t, 0, t.len()), None);
}
