//! Configuration consumed by the scrape engine, and the pure checks the
//! engine performs on it at start-up.
use vstd::prelude::*;

use crate::text;

verus! {

/// The configuration the engine reads. The process front door fills this
/// from its environment; everything here is plain data.
#[derive(Clone, Debug)]
pub struct Configuration {
    /// API credential for the blog-platform backend; absence degrades that
    /// backend to its no-credential path.
    pub tumblr_api_key: Option<String>,
    /// Optional outbound proxy URL; its scheme must be one of the four
    /// accepted ones (a fatal configuration error otherwise).
    pub proxy_url: Option<String>,
    /// Camouflage signing key; camouflage degrades to the identity when it
    /// is absent.
    pub camo_key: Option<String>,
    /// Camouflage proxy host; camouflage degrades to the identity when it
    /// is absent.
    pub camo_host: Option<String>,
    /// Preferred mirror hostname for the mirror-instance backend.
    pub preferred_nitter_instance_host: Option<String>,
    /// Comma-separated list of allowed request origins.
    pub allowed_origins: String,
    /// Whether a request without an origin header is allowed.
    pub allow_empty_origin: bool,
    /// Whether the front door insists on a CSRF marker.
    pub check_csrf_presence: bool,
    /// Whether plain GET scrape requests are accepted.
    pub enable_get_request: bool,
    /// Lifetime, in seconds, of per-backend sub-cache entries.
    pub cache_http_duration: u64,
    /// Idle expiry of the result cache, in seconds.
    pub cache_idle_secs: u64,
    /// Absolute expiry of the result cache, in seconds.
    pub cache_live_secs: u64,
}

impl Default for Configuration {
    /// The defaults the engine starts from when the environment supplies
    /// nothing: no credentials, no proxy, camouflage off, a ten-minute idle
    /// window and a hundred-minute absolute lifetime.
    fn default() -> (c: Configuration)
        ensures
            c.tumblr_api_key is None,
            c.proxy_url is None,
            c.camo_key is None,
            c.camo_host is None,
            c.preferred_nitter_instance_host is None,
            c.allowed_origins@ == Seq::<char>::empty(),
            !c.allow_empty_origin,
            !c.check_csrf_presence,
            !c.enable_get_request,
            c.cache_http_duration == 600,
            c.cache_idle_secs == 600,
            c.cache_live_secs == 6000,
    {
        Configuration {
            tumblr_api_key: None,
            proxy_url: None,
            camo_key: None,
            camo_host: None,
            preferred_nitter_instance_host: None,
            allowed_origins: String::new(),
            allow_empty_origin: false,
            check_csrf_presence: false,
            enable_get_request: false,
            cache_http_duration: 600,
            cache_idle_secs: 600,
            cache_live_secs: 6000,
        }
    }
}

// ---------------------------------------------------------------------------
// Proxy scheme validation
// ---------------------------------------------------------------------------

/// The outbound proxy schemes the HTTP client accepts.
pub open spec fn proxy_scheme_ok(s: Seq<char>) -> bool {
    s == "http"@ || s == "https"@ || s == "socks"@ || s == "socks5"@
}

/// Checks a proxy scheme against the accepted set; any other scheme is a
/// fatal configuration error at client-construction time.
pub fn is_proxy_scheme_ok(s: &str) -> (r: bool)
    ensures
        r == proxy_scheme_ok(s@),
{
    text::str_eq(s, "http") || text::str_eq(s, "https") || text::str_eq(s, "socks")
        || text::str_eq(s, "socks5")
}

// ---------------------------------------------------------------------------
// Allowed origins
// ---------------------------------------------------------------------------

/// The comma-separated fields of `s`, in order, empty fields included.
pub open spec fn comma_fields(s: Seq<char>) -> Seq<Seq<char>>
    decreases s.len(),
{
    let n = text::prefix_len(s, |c: char| c != ',');
    if 0 <= n < s.len() {
        seq![s.take(n)] + comma_fields(s.skip(n + 1))
    } else {
        seq![s]
    }
}

/// The non-empty comma-separated fields of `s`: the parsed allowed-origin
/// list.
pub open spec fn origin_list(s: Seq<char>) -> Seq<Seq<char>> {
    comma_fields(s).filter(|f: Seq<char>| f.len() != 0)
}

/// Splits `s` at every comma, keeping empty fields.
pub fn split_commas(s: &str) -> (r: Vec<String>)
    ensures
        r.deep_view() == comma_fields(s@),
{
    let mut out: Vec<String> = Vec::new();
    let len = s.unicode_len();
    let mut i: usize = 0;
    let mut done = false;
    proof {
        assert(out.deep_view() =~= Seq::<Seq<char>>::empty());
        assert(s@.skip(0) =~= s@);
        assert(out.deep_view() + comma_fields(s@) =~= comma_fields(s@));
    }
    while !done
        invariant
            0 <= i <= len,
            len == s@.len(),
            !done ==> comma_fields(s@) == out.deep_view() + comma_fields(s@.skip(i as int)),
            done ==> out.deep_view() == comma_fields(s@),
        decreases len - i + if done {
            0int
        } else {
            1int
        },
    {
        let ghost rest = s@.skip(i as int);
        let ghost prev = out.deep_view();
        let n = text::run_len(s, i, text::CharKind::NotComma);
        proof {
            assert(text::kind_pred(text::CharKind::NotComma) == (|c: char| c != ','));
            text::lemma_prefix_len_props(rest, |c: char| c != ',');
        }
        let field = text::substr_copy(s, i, i + n);
        proof {
            assert(field@ =~= rest.take(n as int));
        }
        out.push(field);
        proof {
            assert(out.deep_view() =~= prev + seq![rest.take(n as int)]);
        }
        if i + n == len {
            proof {
                assert(rest.take(n as int) =~= rest);
                assert(comma_fields(rest) =~= seq![rest]);
            }
            done = true;
        } else {
            i = i + n + 1;
            proof {
                assert(comma_fields(rest) == seq![rest.take(n as int)] + comma_fields(
                    rest.skip(n + 1)));
                assert(s@.skip(i as int) =~= rest.skip(n + 1));
                assert(out.deep_view() + comma_fields(s@.skip(i as int)) =~= prev + comma_fields(
                    rest));
            }
        }
    }
    out
}

/// Splits the configured origins on commas, dropping empty fields.
pub fn parse_allowed_origins(s: &str) -> (r: Vec<String>)
    ensures
        r.deep_view() == origin_list(s@),
{
    broadcast use vstd::seq_lib::group_filter_ensures;

    let fields = split_commas(s);
    let ghost p = |f: Seq<char>| f.len() != 0;
    let mut out: Vec<String> = Vec::new();
    let mut j: usize = 0;
    proof {
        reveal_with_fuel(Seq::filter, 2);
        assert(fields.deep_view().take(0).filter(p) =~= Seq::<Seq<char>>::empty());
    }
    while j < fields.len()
        invariant
            0 <= j <= fields@.len(),
            fields.deep_view() == comma_fields(s@),
            fields.deep_view().len() == fields@.len(),
            out.deep_view() == fields.deep_view().take(j as int).filter(p),
            p == (|f: Seq<char>| f.len() != 0),
        decreases fields@.len() - j,
    {
        let ghost prev = out.deep_view();
        let ghost fv = fields.deep_view();
        let keep = fields[j].as_str().unicode_len() != 0;
        if keep {
            let f = fields[j].clone();
            out.push(f);
            proof {
                assert(out.deep_view() =~= prev + seq![fv[j as int]]);
            }
        }
        proof {
            reveal_with_fuel(Seq::filter, 2);
            Seq::filter_distributes_over_add(fv.take(j as int), seq![fv[j as int]], p);
            assert(fv.take(j as int) + seq![fv[j as int]] =~= fv.take(j as int + 1));
            assert(seq![fv[j as int]].drop_last() =~= Seq::<Seq<char>>::empty());
            if keep {
                assert(seq![fv[j as int]].filter(p) =~= seq![fv[j as int]]);
            } else {
                assert(seq![fv[j as int]].filter(p) =~= Seq::<Seq<char>>::empty());
            }
        }
        j = j + 1;
    }
    proof {
        assert(fields.deep_view().take(fields@.len() as int) =~= fields.deep_view());
    }
    out
}

} // verus!
