//! Classification predicates, the tie-break, the no-match path, and the
//! single-flight cache.
use artscraper::cache::{CacheDecision, ResultCache};
use artscraper::config::Configuration;
use artscraper::dispatch::{get_scraper, resolve, Backend, ClassifyEvidence, ClassifyOutcome};
use artscraper::raw::{is_raw, raw_scrape, RawProbe};
use artscraper::result::ScrapeResult;
use artscraper::urlkit::UrlParts;
use artscraper::wire::render_outcome;

fn parts_of(url: &str) -> UrlParts {
    let p = artscraper::urlkit::parse_url(url).expect("test URL parses");
    p
}

fn quiet_evidence(status: u16, content_type: Option<&str>) -> ClassifyEvidence {
    ClassifyEvidence {
        raw: Ok(RawProbe {
            status,
            content_type: content_type.map(String::from),
        }),
        tumblr_dns: Ok(vec![]),
    }
}

#[test]
fn classification_disjointness_for_raw_image() {
    // a well-formed raw image URL answering image/png: exactly the
    // raw-asset backend classifies true
    let url = "https://static.example.org/img/view/2021/3/20/4010154.png";
    let parts = parts_of(url);
    assert!(!artscraper::twitter::is_twitter(url));
    assert!(!artscraper::nitter::is_nitter(parts.host.as_ref(), &parts.path));
    assert!(!artscraper::tumblr::is_tumblr_url(url));
    assert!(!artscraper::deviantart::is_deviantart(parts.host.as_ref()));
    assert!(!artscraper::derpibooru::is_derpibooru(url));
    assert!(!artscraper::buzzly::is_buzzlyart(url));
    assert_eq!(
        is_raw(&RawProbe {
            status: 200,
            content_type: Some(String::from("image/png")),
        })
        .unwrap(),
        true
    );
    let ev = quiet_evidence(200, Some("image/png"));
    let picked = get_scraper(&parts, &ev).unwrap();
    assert_eq!(picked, Some(Backend::Raw));
    // and the raw extraction is the identity with camouflage off
    let config = Configuration::default();
    match raw_scrape(&config, url).unwrap() {
        Some(ScrapeResult::Found(d)) => {
            assert_eq!(d.source_url.as_deref(), Some(url));
            assert_eq!(d.images.len(), 1);
            assert_eq!(d.images[0].url, url);
            assert_eq!(d.images[0].camo_url, url);
        }
        _ => panic!("expected a successful extraction"),
    }
}

#[test]
fn test_raw_scraper() {
    let url = "https://static.manebooru.art/img/view/2021/3/20/4010154.png";
    let config = Configuration::default();
    let scrape = raw_scrape(&config, url)
        .unwrap()
        .expect("got none response from scraper");
    match scrape {
        ScrapeResult::Found(d) => {
            assert_eq!(d.source_url.as_deref(), Some(url));
            assert_eq!(d.author_name, None);
            assert_eq!(d.additional_tags, None);
            assert_eq!(d.description, None);
            assert_eq!(d.images.len(), 1);
            assert_eq!(d.images[0].url, url);
            assert_eq!(d.images[0].camo_url, url);
        }
        _ => panic!("expected a successful extraction"),
    }
}

#[test]
fn no_match_yields_none_and_placeholder() {
    // an unrelated domain with a non-image content type matches nothing
    let url = "https://unrelated.example.net/page.html";
    let parts = parts_of(url);
    let ev = quiet_evidence(200, Some("text/html"));
    let picked = get_scraper(&parts, &ev).unwrap();
    assert_eq!(picked, None);
    // the boundary renders that as the documented placeholder
    assert_eq!(render_outcome(&None), "{\"errors\":[\"URL invalid\"]}");
}

#[test]
fn tie_break_picks_lowest_ordinal() {
    // crafted to satisfy both the token-exchange and the blog-platform
    // classifiers
    let url = "https://twitter.com/someone/status/123/post/456";
    assert!(artscraper::twitter::is_twitter(url));
    assert!(artscraper::tumblr::is_tumblr_url(url));
    let parts = parts_of(url);
    let ev = quiet_evidence(404, None);
    let first = get_scraper(&parts, &ev).unwrap();
    let second = get_scraper(&parts, &ev).unwrap();
    assert_eq!(first, Some(Backend::Twitter));
    assert_eq!(second, Some(Backend::Twitter));
}

#[test]
fn resolve_orders_every_pair() {
    let mut flags = ClassifyOutcome {
        twitter: false,
        nitter: true,
        tumblr: false,
        deviantart: true,
        philomena: false,
        buzzly: false,
        raw: true,
    };
    assert_eq!(resolve(&flags), Some(Backend::Nitter));
    flags.nitter = false;
    assert_eq!(resolve(&flags), Some(Backend::DeviantArt));
    flags.deviantart = false;
    assert_eq!(resolve(&flags), Some(Backend::Raw));
    flags.raw = false;
    assert_eq!(resolve(&flags), None);
}

#[test]
fn classification_fails_closed_on_probe_fault() {
    let url = "https://unrelated.example.net/page.html";
    let parts = parts_of(url);
    let ev = ClassifyEvidence {
        raw: Err(String::from("connection refused")),
        tumblr_dns: Ok(vec![]),
    };
    let err = get_scraper(&parts, &ev).unwrap_err();
    let rendered = ScrapeResult::from_err(&err);
    match rendered {
        ScrapeResult::Failed(e) => {
            assert_eq!(
                e.errors,
                vec![
                    String::from("raw asset probe failed"),
                    String::from("connection refused")
                ]
            );
        }
        _ => panic!("expected a structured failure"),
    }
}

#[test]
fn tumblr_network_ranges_classify_custom_domains() {
    let url = "https://myblog.example.org/gallery";
    let parts = parts_of(url);
    // 66.6.32.9 is inside the platform-owned ranges
    let addr: u32 = (66 << 24) | (6 << 16) | (32 << 8) | 9;
    let ev = ClassifyEvidence {
        raw: Ok(RawProbe {
            status: 404,
            content_type: None,
        }),
        tumblr_dns: Ok(vec![Some(addr), None]),
    };
    assert_eq!(get_scraper(&parts, &ev).unwrap(), Some(Backend::Tumblr));
    // an address outside the ranges does not
    let ev2 = ClassifyEvidence {
        raw: Ok(RawProbe {
            status: 404,
            content_type: None,
        }),
        tumblr_dns: Ok(vec![Some((8 << 24) | (8 << 16) | (8 << 8) | 8)]),
    };
    assert_eq!(get_scraper(&parts, &ev2).unwrap(), None);
}

#[test]
fn single_flight_one_begin_per_key() {
    let mut cache = ResultCache::new(600, 6000);
    let d1 = cache.get_or_begin("https://a.example/1", 100);
    assert!(matches!(d1, CacheDecision::Begin));
    // every caller arriving while the computation runs waits
    let d2 = cache.get_or_begin("https://a.example/1", 101);
    assert!(matches!(d2, CacheDecision::Wait));
    let d3 = cache.get_or_begin("https://a.example/1", 102);
    assert!(matches!(d3, CacheDecision::Wait));
    // a different key never blocks
    let other = cache.get_or_begin("https://a.example/2", 102);
    assert!(matches!(other, CacheDecision::Begin));
    // once complete, all callers see the identical outcome
    cache.complete("https://a.example/1", Some(ScrapeResult::NoMatch), 103);
    match cache.get_or_begin("https://a.example/1", 104) {
        CacheDecision::Hit(v) => assert_eq!(v, Some(ScrapeResult::NoMatch)),
        _ => panic!("expected a hit"),
    }
    match cache.get_or_begin("https://a.example/1", 105) {
        CacheDecision::Hit(v) => assert_eq!(v, Some(ScrapeResult::NoMatch)),
        _ => panic!("expected a hit"),
    }
}

#[test]
fn cache_entries_expire() {
    let mut cache = ResultCache::new(10, 100);
    let d = cache.get_or_begin("k", 0);
    assert!(matches!(d, CacheDecision::Begin));
    cache.complete("k", None, 0);
    // inside both windows: a hit
    assert!(matches!(cache.get_or_begin("k", 5), CacheDecision::Hit(_)));
    // past the idle window: expired, the caller recomputes
    assert!(matches!(cache.get_or_begin("k", 40), CacheDecision::Begin));
    cache.complete("k", None, 40);
    // kept alive by reads, but the absolute lifetime still ends it
    assert!(matches!(cache.get_or_begin("k", 45), CacheDecision::Hit(_)));
    assert!(matches!(
        cache.get_or_begin("k", 141),
        CacheDecision::Begin
    ));
}

#[test]
fn abandoned_failure_is_retried() {
    let mut cache = ResultCache::new(600, 6000);
    assert!(matches!(cache.get_or_begin("k", 0), CacheDecision::Begin));
    cache.abandon("k");
    // the window lapsed: the next caller retries from scratch
    assert!(matches!(cache.get_or_begin("k", 1), CacheDecision::Begin));
}

#[test]
fn allowed_origins_are_parsed_and_checked() {
    let mut config = Configuration::default();
    config.allowed_origins = String::from("localhost,localhost:8080,,");
    config.allow_empty_origin = false;
    let state = artscraper::web::State::new(config);
    assert_eq!(
        state.parsed_allowed_origins,
        vec![String::from("localhost"), String::from("localhost:8080")]
    );
    assert!(state.is_allowed_origin(Some(&String::from("localhost"))));
    assert!(!state.is_allowed_origin(Some(&String::from("evil.example"))));
    assert!(!state.is_allowed_origin(None));
    let mut config2 = Configuration::default();
    config2.allowed_origins = String::from("");
    let state2 = artscraper::web::State::new(config2);
    // an empty list allows every named origin
    assert!(state2.is_allowed_origin(Some(&String::from("anything"))));
}

#[test]
fn scrape_request_carries_url_and_ignorable_override() {
    let req = artscraper::web::ScrapeRequest {
        url: String::from("https://derpibooru.org/1"),
        _method: Some(String::from("POST")),
    };
    assert!(artscraper::derpibooru::is_derpibooru(&req.url));
}

#[test]
fn proxy_schemes_are_restricted() {
    assert!(artscraper::config::is_proxy_scheme_ok("http"));
    assert!(artscraper::config::is_proxy_scheme_ok("https"));
    assert!(artscraper::config::is_proxy_scheme_ok("socks"));
    assert!(artscraper::config::is_proxy_scheme_ok("socks5"));
    assert!(!artscraper::config::is_proxy_scheme_ok("ftp"));
}
