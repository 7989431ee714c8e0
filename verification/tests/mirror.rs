//! The mirror-instance backend: roster, tweet paths, markup extraction
//! and canonicalization back to the primary platform.
use artscraper::config::Configuration;
use artscraper::nitter;
use artscraper::result::ScrapeResult;

const PAGE: &str = "<html><body>\
<div class=\"main-tweet\">\
<a class=\"username\">@TheOnion</a>\
<div class=\"tweet-content\">Deal Alert</div>\
<div class=\"attachments\"><div class=\"image\">\
<a class=\"still-image\" href=\"/pic/media%2FEwxvzkEXAAMFg7K.jpg\"><img/></a>\
</div></div>\
</div>\
<a title=\"Open in Twitter\" href=\"https://twitter.com/TheOnion/status/1372594920427491335\">open</a>\
</body></html>";

#[test]
fn roster_and_tweet_paths_classify() {
    let host = String::from("nitter.net");
    assert!(nitter::is_nitter(
        Some(&host),
        "/TheOnion/status/1372594920427491335"
    ));
    let other = String::from("not-a-mirror.example");
    assert!(!nitter::is_nitter(
        Some(&other),
        "/TheOnion/status/1372594920427491335"
    ));
    assert!(!nitter::is_nitter(Some(&host), "/about"));
    assert_eq!(nitter::nitter_instances().len(), 22);
}

#[test]
fn fetch_url_honours_preferred_mirror() {
    let mut config = Configuration::default();
    config.preferred_nitter_instance_host = Some(String::from("nitter.eu"));
    let got = nitter::nitter_fetch_url(&config, "https://nitter.net/TheOnion/status/1").unwrap();
    assert_eq!(got, "https://nitter.eu/TheOnion/status/1");
    let plain = Configuration::default();
    let same = nitter::nitter_fetch_url(&plain, "https://nitter.net/TheOnion/status/1").unwrap();
    assert_eq!(same, "https://nitter.net/TheOnion/status/1");
}

#[test]
fn test_nitter_scraper() {
    let config = Configuration::default();
    let original = "https://nitter.net/TheOnion/status/1372594920427491335";
    let got = nitter::nitter_scrape(&config, original, original, PAGE)
        .unwrap()
        .expect("got none response from scraper");
    match got {
        ScrapeResult::Found(d) => {
            assert_eq!(
                d.source_url.as_deref(),
                Some("https://twitter.com/TheOnion/status/1372594920427491335")
            );
            assert_eq!(d.author_name.as_deref(), Some("TheOnion"));
            assert_eq!(d.description.as_deref(), Some("Deal Alert"));
            assert_eq!(d.images.len(), 1);
            assert_eq!(
                d.images[0].url,
                "https://nitter.net/pic/media%2FEwxvzkEXAAMFg7K.jpg"
            );
        }
        _ => panic!("expected a successful extraction"),
    }
}

#[test]
fn mirror_canonicalization_is_host_independent() {
    // the same post scraped through two different mirror hostnames
    // reports the same canonical source
    let config = Configuration::default();
    let through_net = nitter::nitter_scrape(
        &config,
        "https://nitter.net/TheOnion/status/1372594920427491335",
        "https://nitter.net/TheOnion/status/1372594920427491335",
        PAGE,
    )
    .unwrap()
    .unwrap();
    let through_eu = nitter::nitter_scrape(
        &config,
        "https://nitter.eu/TheOnion/status/1372594920427491335",
        "https://nitter.eu/TheOnion/status/1372594920427491335",
        PAGE,
    )
    .unwrap()
    .unwrap();
    let src = |sr: &ScrapeResult| match sr {
        ScrapeResult::Found(d) => d.source_url.clone(),
        _ => None,
    };
    assert_eq!(
        src(&through_net),
        Some(String::from(
            "https://twitter.com/TheOnion/status/1372594920427491335"
        ))
    );
    assert_eq!(src(&through_net), src(&through_eu));
}

#[test]
fn page_without_canonical_link_falls_back_to_fetch_url() {
    let config = Configuration::default();
    let page = "<div class=\"main-tweet\"><a class=\"username\">@x</a>\
                <div class=\"tweet-content\">t</div></div>";
    let fetch = "https://nitter.eu/x/status/9";
    let got = nitter::nitter_scrape(&config, fetch, fetch, page)
        .unwrap()
        .unwrap();
    match got {
        ScrapeResult::Found(d) => {
            assert_eq!(d.source_url.as_deref(), Some(fetch));
            assert_eq!(d.images.len(), 0);
        }
        _ => panic!("expected a successful extraction"),
    }
}
