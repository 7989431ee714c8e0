//! The URL camouflage rewrite: a pure, deterministic transform from an
//! asset URL to a signed proxy URL, or the identity when no key or host is
//! configured.
use vstd::prelude::*;

use hmac::Mac;

use crate::config::Configuration;
use crate::digits;
use crate::text;

verus! {

/// The authentication tag of `Hmac<Sha1>` over `msg` with `key`: a pure
/// function of the two byte strings.
pub uninterp spec fn hmac_sha1_of(key: Seq<u8>, msg: Seq<u8>) -> Seq<u8>;

/// Relies on the hmac crate's `Hmac::<sha1::Sha1>`: the tag depends on key
/// and message alone, keys of any length are accepted, and the SHA-1 tag is
/// 20 bytes.
#[verifier::external_body]
fn hmac_sha1(key: &Vec<u8>, msg: &Vec<u8>) -> (r: Vec<u8>)
    ensures
        r@ == hmac_sha1_of(key@, msg@),
        r@.len() == 20,
{
    let mut mac = <hmac::Hmac<sha1::Sha1> as hmac::KeyInit>::new_from_slice(key.as_slice())
        .expect("HMAC accepts keys of any length");
    mac.update(msg.as_slice());
    mac.finalize().into_bytes().to_vec()
}

/// Relies on `str::as_bytes`: a string's bytes are the UTF-8 encoding
/// of its characters, which the signing key is hashed over.
#[verifier::external_body]
fn utf8_bytes(s: &str) -> (r: Vec<u8>)
    ensures
        r@ == vstd::utf8::encode_utf8(s@),
{
    s.as_bytes().to_vec()
}

/// The camouflaged form of `url` under `key` and `host`: the proxy host,
/// the hex HMAC-SHA1 tag of the asset URL under the key's UTF-8 bytes,
/// and the hex asset URL itself.
pub open spec fn camo_wire(key: Seq<char>, host: Seq<char>, url: Seq<char>) -> Seq<char> {
    "https://"@ + host + "/"@ + digits::hex_of(
        hmac_sha1_of(vstd::utf8::encode_utf8(key), text::ascii_of(url)),
    ) + "/"@ + digits::hex_of(text::ascii_of(url))
}

/// Whether the camouflage configuration is sound: with both a key and a
/// host present, the host must be non-empty ASCII. Checked once at
/// start-up; a bad pair is a fatal configuration error, never deferred
/// to request time.
pub open spec fn camo_config_ok(c: &Configuration) -> bool {
    c.camo_key is None || c.camo_host is None || (text::ascii_seq(c.camo_host->0@)
        && c.camo_host->0@.len() > 0)
}

/// What `camo_url` returns, case by case: the identity when key or host is
/// absent, a configuration error for a bad proxy host, a URL error for an
/// asset URL outside ASCII, and the signed rewrite otherwise.
pub open spec fn camo_result(c: &Configuration, url: Seq<char>) -> Result<Seq<char>, Seq<char>> {
    if c.camo_key is None || c.camo_host is None {
        Result::Ok(url)
    } else if !camo_config_ok(c) {
        Result::Err("camo config invalid"@)
    } else if !text::ascii_seq(url) {
        Result::Err("camo url invalid"@)
    } else {
        Result::Ok(camo_wire(c.camo_key->0@, c.camo_host->0@, url))
    }
}

/// Checks the camouflage configuration, for the process to run once at
/// start-up and die on a bad pair.
pub fn validate_camo_config(config: &Configuration) -> (r: Result<(), String>)
    ensures
        r is Ok <==> camo_config_ok(config),
        r matches Err(e) ==> e@ == "camo config invalid"@,
{
    match (&config.camo_key, &config.camo_host) {
        (Some(_), Some(host)) => {
            let ok = match text::ascii_bytes(host.as_str()) {
                None => false,
                Some(_) => host.as_str().unicode_len() > 0,
            };
            if ok {
                Ok(())
            } else {
                Err(String::from_str("camo config invalid"))
            }
        },
        _ => Ok(()),
    }
}

/// A configuration that passes the start-up check never reports a
/// configuration error at request time: only an unencodable asset URL
/// can still fail.
pub proof fn lemma_config_check_is_complete(c: &Configuration, url: Seq<char>)
    requires
        camo_config_ok(c),
    ensures
        camo_result(c, url) matches Err(m) ==> m == "camo url invalid"@,
{
}

/// Rewrites one asset URL through the configured signing proxy.
///
/// With no key or no host configured this is the identity transform; a
/// malformed key or host is a configuration error, never a silent change
/// of the URL.
pub fn camo_url(config: &Configuration, url: &str) -> (r: Result<String, String>)
    ensures
        match r {
            Ok(s) => camo_result(config, url@) matches Ok(w) && s@ == w,
            Err(e) => camo_result(config, url@) matches Err(w) && e@ == w,
        },
{
    let key = match &config.camo_key {
        None => {
            return Ok(String::from_str(url));
        },
        Some(k) => k,
    };
    let host = match &config.camo_host {
        None => {
            return Ok(String::from_str(url));
        },
        Some(h) => h,
    };
    let host_ok = match text::ascii_bytes(host.as_str()) {
        None => false,
        Some(_) => host.as_str().unicode_len() > 0,
    };
    if !host_ok {
        return Err(String::from_str("camo config invalid"));
    }
    let key_bytes = utf8_bytes(key.as_str());
    let url_bytes = match text::ascii_bytes(url) {
        None => {
            return Err(String::from_str("camo url invalid"));
        },
        Some(b) => b,
    };
    let tag = hmac_sha1(&key_bytes, &url_bytes);
    let mut out = String::from_str("https://");
    out.append(host.as_str());
    out.append("/");
    out.append(digits::hex_str(&tag).as_str());
    out.append("/");
    out.append(digits::hex_str(&url_bytes).as_str());
    proof {
        assert(out@ =~= camo_wire(key@, host@, url@));
    }
    Ok(out)
}

// ---------------------------------------------------------------------------
// Laws
// ---------------------------------------------------------------------------

/// Camouflage is deterministic: the same configuration and the same URL
/// always camouflage to the same output.
pub proof fn lemma_camouflage_deterministic(c: &Configuration, u1: Seq<char>, u2: Seq<char>)
    requires
        u1 == u2,
    ensures
        camo_result(c, u1) == camo_result(c, u2),
{
}

/// Identity opt-out: with no signing key (or no proxy host) configured,
/// camouflage returns every URL unchanged.
pub proof fn lemma_camouflage_identity_opt_out(c: &Configuration, u: Seq<char>)
    requires
        c.camo_key is None || c.camo_host is None,
    ensures
        camo_result(c, u) == Result::<Seq<char>, Seq<char>>::Ok(u),
{
}

} // verus!
