//! Camouflage determinism and opt-out, error-chain filtering, and the
//! wire rendering of results.
use artscraper::camo::camo_url;
use artscraper::config::Configuration;
use artscraper::result::{ErrorChain, ErrorLayer, ScrapeImage, ScrapeResult};
use artscraper::wire::{render, render_outcome};

fn camo_config() -> Configuration {
    let mut c = Configuration::default();
    c.camo_key = Some(String::from("0123456789abcdef"));
    c.camo_host = Some(String::from("camo.example.org"));
    c
}

#[test]
fn camouflage_identity_without_key() {
    let config = Configuration::default();
    let url = "https://static.example.org/img/view/2021/3/20/4010154.png";
    assert_eq!(camo_url(&config, url).unwrap(), url);
}

#[test]
fn camouflage_identity_without_host() {
    let mut config = Configuration::default();
    config.camo_key = Some(String::from("k"));
    let url = "https://cdn.example.org/a.png";
    assert_eq!(camo_url(&config, url).unwrap(), url);
}

#[test]
fn camouflage_deterministic() {
    let config = camo_config();
    let url = "https://cdn.example.org/some/asset.png";
    let first = camo_url(&config, url).unwrap();
    let second = camo_url(&config, url).unwrap();
    assert_eq!(first, second);
}

#[test]
fn camouflage_rewrites_through_proxy_host() {
    let config = camo_config();
    let url = "https://cdn.example.org/some/asset.png";
    let out = camo_url(&config, url).unwrap();
    assert!(out.starts_with("https://camo.example.org/"));
    let rest = &out["https://camo.example.org/".len()..];
    let mut parts = rest.splitn(2, '/');
    let digest = parts.next().unwrap();
    let payload = parts.next().unwrap();
    // an HMAC-SHA1 tag is twenty bytes: forty hex digits
    assert_eq!(digest.len(), 40);
    assert!(digest.chars().all(|c| c.is_ascii_hexdigit()));
    // the payload is the hex of the asset URL, so it round-trips
    let decoded: String = (0..payload.len())
        .step_by(2)
        .map(|i| u8::from_str_radix(&payload[i..i + 2], 16).unwrap() as char)
        .collect();
    assert_eq!(decoded, url);
}

#[test]
fn camouflage_accepts_utf8_keys() {
    // the key is hashed over its UTF-8 bytes, so a non-ASCII key works
    let mut config = Configuration::default();
    config.camo_key = Some(String::from("clé"));
    config.camo_host = Some(String::from("camo.example.org"));
    let url = "https://cdn.example.org/a.png";
    let first = camo_url(&config, url).unwrap();
    let second = camo_url(&config, url).unwrap();
    assert!(first.starts_with("https://camo.example.org/"));
    assert_eq!(first, second);
}

#[test]
fn camo_configuration_checked_at_startup() {
    let mut config = Configuration::default();
    config.camo_key = Some(String::from("k"));
    config.camo_host = Some(String::from(""));
    assert_eq!(
        artscraper::camo::validate_camo_config(&config).unwrap_err(),
        "camo config invalid"
    );
    // the same pair fails per request too, with the same message
    assert_eq!(
        camo_url(&config, "https://cdn.example.org/a.png").unwrap_err(),
        "camo config invalid"
    );
    config.camo_host = Some(String::from("camo.example.org"));
    assert!(artscraper::camo::validate_camo_config(&config).is_ok());
    let unconfigured = Configuration::default();
    assert!(artscraper::camo::validate_camo_config(&unconfigured).is_ok());
}

#[test]
fn camouflage_rejects_non_ascii_url() {
    let config = camo_config();
    let err = camo_url(&config, "https://cdn.example.org/ç.png").unwrap_err();
    assert_eq!(err, "camo url invalid");
}

#[test]
fn error_chain_filters_transport_layers() {
    let mut chain = ErrorChain::new();
    chain
        .layers
        .push(ErrorLayer::new(String::from("connection timed out"), true));
    chain.layers.push(ErrorLayer::new(
        String::from("could not parse script data"),
        false,
    ));
    let result = ScrapeResult::from_err(&chain);
    match result {
        ScrapeResult::Failed(e) => {
            assert_eq!(e.errors, vec![String::from("could not parse script data")]);
        }
        _ => panic!("expected a structured failure"),
    }
}

#[test]
fn error_chain_keeps_order_of_readable_layers() {
    let mut chain = ErrorChain::message(String::from("inner"));
    chain = chain.wrap(String::from("Twitter parser failed"));
    let result = ScrapeResult::from_err(&chain);
    match result {
        ScrapeResult::Failed(e) => {
            assert_eq!(
                e.errors,
                vec![
                    String::from("Twitter parser failed"),
                    String::from("inner")
                ]
            );
        }
        _ => panic!("expected a structured failure"),
    }
}

#[test]
fn scrape_image_equality_ignores_case() {
    let a = ScrapeImage {
        url: String::from("https://CDN.example.org/A.PNG"),
        camo_url: String::from("https://camo.example.org/x"),
    };
    let b = ScrapeImage {
        url: String::from("https://cdn.example.org/a.png"),
        camo_url: String::from("https://CAMO.example.org/X"),
    };
    assert_eq!(a, b);
    let c = ScrapeImage {
        url: String::from("https://cdn.example.org/other.png"),
        camo_url: b.camo_url.clone(),
    };
    assert!(a != c);
}

#[test]
fn wire_renders_no_match_placeholder() {
    assert_eq!(render_outcome(&None), "{\"errors\":[\"URL invalid\"]}");
}

#[test]
fn wire_renders_untagged_union() {
    let sr = ScrapeResult::Failed(artscraper::result::ScrapeResultError {
        errors: vec![String::from("no image found")],
    });
    assert_eq!(render(&sr), "{\"errors\":[\"no image found\"]}");
    assert_eq!(render(&ScrapeResult::NoMatch), "null");
    let data = artscraper::result::ScrapeResultData {
        source_url: Some(String::from("https://a.example/p")),
        author_name: None,
        additional_tags: Some(vec![String::from("one"), String::from("t\"wo")]),
        description: Some(String::from("line\nbreak")),
        images: vec![ScrapeImage {
            url: String::from("https://a.example/i.png"),
            camo_url: String::from("https://a.example/i.png"),
        }],
    };
    let body = render(&ScrapeResult::Found(data));
    assert_eq!(
        body,
        "{\"source_url\":\"https://a.example/p\",\"author_name\":null,\
         \"additional_tags\":[\"one\",\"t\\\"wo\"],\"description\":\"line\\nbreak\",\
         \"images\":[{\"url\":\"https://a.example/i.png\",\"camo_url\":\"https://a.example/i.png\"}]}"
    );
}

#[test]
fn wire_escapes_match_standard_encoder() {
    let sr = ScrapeResult::Failed(artscraper::result::ScrapeResultError {
        errors: vec![String::from("a\"b\\c\td\u{1}")],
    });
    let body = render(&sr);
    // parse our body back with the standard decoder and compare content
    let parsed: serde_json::Value = serde_json::from_str(&body).unwrap();
    assert_eq!(parsed["errors"][0].as_str().unwrap(), "a\"b\\c\td\u{1}");
}
