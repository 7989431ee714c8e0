//! The tri-state scrape result envelope and the error-chain reduction that
//! turns a failure's cause chain into the user-facing error list.
use vstd::prelude::*;

use crate::text;

verus! {

/// One discovered asset: the original (or highest-resolution) URL and its
/// camouflaged counterpart.
#[derive(Clone, Debug)]
pub struct ScrapeImage {
    pub url: String,
    pub camo_url: String,
}

/// Scrape image equality is case-insensitive on both URL fields, because
/// upstream platforms vary URL casing.
pub open spec fn image_like(a: &ScrapeImage, b: &ScrapeImage) -> bool {
    text::eq_ignore_case(a.url@, b.url@) && text::eq_ignore_case(a.camo_url@, b.camo_url@)
}

impl PartialEq for ScrapeImage {
    fn eq(&self, other: &ScrapeImage) -> (r: bool) {
        text::str_eq_ignore_case(self.url.as_str(), other.url.as_str())
            && text::str_eq_ignore_case(self.camo_url.as_str(), other.camo_url.as_str())
    }
}

impl vstd::std_specs::cmp::PartialEqSpecImpl for ScrapeImage {
    open spec fn obeys_eq_spec() -> bool {
        true
    }

    open spec fn eq_spec(&self, other: &ScrapeImage) -> bool {
        image_like(self, other)
    }
}

/// The payload of a successful scrape.
#[derive(Clone, Debug, PartialEq)]
pub struct ScrapeResultData {
    pub source_url: Option<String>,
    pub author_name: Option<String>,
    pub additional_tags: Option<Vec<String>>,
    pub description: Option<String>,
    /// Discovery order; several resolutions of one asset may appear.
    pub images: Vec<ScrapeImage>,
}

/// The structured error reported to the caller: the readable layers of the
/// failure's cause chain.
#[derive(Clone, Debug, PartialEq)]
pub struct ScrapeResultError {
    pub errors: Vec<String>,
}

impl ScrapeResultError {
    /// A one-message error, as the boundary's placeholder for "no match"
    /// is built.
    pub fn from_message(f: String) -> (r: ScrapeResultError)
        ensures
            r.errors@ == seq![f],
    {
        let mut errors: Vec<String> = Vec::new();
        errors.push(f);
        proof {
            assert(errors@ =~= seq![f]);
        }
        ScrapeResultError { errors }
    }
}

/// A scrape ends in exactly one of three states: a structured failure, a
/// successful payload, or "no backend recognized the URL".
#[derive(Clone, Debug, PartialEq)]
pub enum ScrapeResult {
    Failed(ScrapeResultError),
    Found(ScrapeResultData),
    NoMatch,
}

impl Default for ScrapeResult {
    /// Absent any information, a scrape result is "no match".
    fn default() -> (r: ScrapeResult)
        ensures
            r is NoMatch,
    {
        ScrapeResult::NoMatch
    }
}

/// The (asset URL, camouflaged URL) pairs an image list stands for.
pub open spec fn image_pairs(s: Seq<ScrapeImage>) -> Seq<(Seq<char>, Seq<char>)> {
    s.map_values(|im: ScrapeImage| (im.url@, im.camo_url@))
}

/// Two successful payloads carry the same data.
pub open spec fn data_like(a: ScrapeResultData, b: ScrapeResultData) -> bool {
    &&& match (a.source_url, b.source_url) {
        (None, None) => true,
        (Some(x), Some(y)) => x@ == y@,
        _ => false,
    }
    &&& match (a.author_name, b.author_name) {
        (None, None) => true,
        (Some(x), Some(y)) => x@ == y@,
        _ => false,
    }
    &&& match (a.additional_tags, b.additional_tags) {
        (None, None) => true,
        (Some(x), Some(y)) => x.deep_view() == y.deep_view(),
        _ => false,
    }
    &&& match (a.description, b.description) {
        (None, None) => true,
        (Some(x), Some(y)) => x@ == y@,
        _ => false,
    }
    &&& image_pairs(a.images@) == image_pairs(b.images@)
}

/// Two results carry the same content, field for field.
pub open spec fn result_like(a: ScrapeResult, b: ScrapeResult) -> bool {
    match (a, b) {
        (ScrapeResult::NoMatch, ScrapeResult::NoMatch) => true,
        (ScrapeResult::Failed(x), ScrapeResult::Failed(y)) => x.errors.deep_view()
            == y.errors.deep_view(),
        (ScrapeResult::Found(x), ScrapeResult::Found(y)) => data_like(x, y),
        _ => false,
    }
}

/// Two optional results carry the same content.
pub open spec fn outcome_like(a: Option<ScrapeResult>, b: Option<ScrapeResult>) -> bool {
    match (a, b) {
        (None, None) => true,
        (Some(x), Some(y)) => result_like(x, y),
        _ => false,
    }
}

// ---------------------------------------------------------------------------
// Error chains
// ---------------------------------------------------------------------------

/// One layer of a failure's cause chain, outermost first. `transport` marks
/// layers that stem from the network transport; those are suppressed from
/// the user-facing list.
#[derive(Clone, Debug)]
pub struct ErrorLayer {
    pub message: String,
    pub transport: bool,
}

impl ErrorLayer {
    pub fn new(message: String, transport: bool) -> (r: ErrorLayer)
        ensures
            r.message == message,
            r.transport == transport,
    {
        ErrorLayer { message, transport }
    }
}

/// A failure as it propagates: the full cause chain, outermost layer first.
#[derive(Clone, Debug)]
pub struct ErrorChain {
    pub layers: Vec<ErrorLayer>,
}

/// The user-facing reduction of a cause chain: the messages of the
/// non-transport layers, in chain order.
pub open spec fn chain_messages(layers: Seq<ErrorLayer>) -> Seq<Seq<char>>
    decreases layers.len(),
{
    if layers.len() == 0 {
        Seq::empty()
    } else {
        chain_messages(layers.drop_last()) + if layers.last().transport {
            Seq::empty()
        } else {
            seq![layers.last().message@]
        }
    }
}

/// A single readable layer reduces to its own message.
pub proof fn lemma_chain_messages_single(l: ErrorLayer)
    requires
        !l.transport,
    ensures
        chain_messages(seq![l]) == seq![l.message@],
{
    assert(seq![l].drop_last() =~= Seq::<ErrorLayer>::empty());
    assert(chain_messages(Seq::<ErrorLayer>::empty()) == Seq::<Seq<char>>::empty());
    assert(chain_messages(seq![l]) =~= seq![l.message@]);
}

/// Prepending a readable context layer prepends its message to the
/// reduction.
pub proof fn lemma_chain_messages_prepend(l: ErrorLayer, layers: Seq<ErrorLayer>)
    requires
        !l.transport,
    ensures
        chain_messages(seq![l] + layers) == seq![l.message@] + chain_messages(layers),
    decreases layers.len(),
{
    if layers.len() == 0 {
        assert(seq![l] + layers =~= seq![l]);
        lemma_chain_messages_single(l);
        assert(seq![l.message@] + chain_messages(layers) =~= seq![l.message@]);
    } else {
        lemma_chain_messages_prepend(l, layers.drop_last());
        let whole = seq![l] + layers;
        assert(whole.drop_last() =~= seq![l] + layers.drop_last());
        assert(whole.last() == layers.last());
        assert(chain_messages(whole) == chain_messages(seq![l] + layers.drop_last()) + if layers.last().transport {
            Seq::<Seq<char>>::empty()
        } else {
            seq![layers.last().message@]
        });
        assert(chain_messages(seq![l] + layers) =~= seq![l.message@] + chain_messages(layers));
    }
}

impl ErrorChain {
    pub fn new() -> (r: ErrorChain)
        ensures
            r.layers@ == Seq::<ErrorLayer>::empty(),
    {
        ErrorChain { layers: Vec::new() }
    }

    /// Builds a single-layer, non-transport chain: how a fresh semantic
    /// failure enters the propagation path.
    pub fn message(message: String) -> (r: ErrorChain)
        ensures
            r.layers@ == seq![ErrorLayer { message, transport: false }],
    {
        let mut layers: Vec<ErrorLayer> = Vec::new();
        layers.push(ErrorLayer { message, transport: false });
        proof {
            assert(layers@ =~= seq![ErrorLayer { message, transport: false }]);
        }
        ErrorChain { layers }
    }

    /// Wraps the chain in one more outer context layer, as the dispatcher
    /// does with its backend-identifying annotation.
    pub fn wrap(self, message: String) -> (r: ErrorChain)
        ensures
            r.layers@ == seq![ErrorLayer { message, transport: false }] + self.layers@,
    {
        let mut layers: Vec<ErrorLayer> = Vec::new();
        layers.push(ErrorLayer { message, transport: false });
        let mut rest = self.layers;
        let ghost head = layers@;
        let ghost tail = rest@;
        let mut i: usize = 0;
        while i < rest.len()
            invariant
                0 <= i <= tail.len(),
                rest@ == tail,
                layers@ == head + tail.take(i as int),
            decreases tail.len() - i,
        {
            let l = ErrorLayer { message: rest[i].message.clone(), transport: rest[i].transport };
            layers.push(l);
            proof {
                assert(layers@ =~= head + tail.take(i as int + 1));
            }
            i = i + 1;
        }
        proof {
            assert(tail.take(tail.len() as int) =~= tail);
        }
        ErrorChain { layers }
    }
}

/// The reduction of a fresh two-layer readable chain.
pub proof fn lemma_two_layer_messages(ch: ErrorChain)
    requires
        ch.layers@.len() == 2,
        !ch.layers@[0].transport,
        !ch.layers@[1].transport,
    ensures
        chain_messages(ch.layers@) == seq![ch.layers@[0].message@, ch.layers@[1].message@],
{
    lemma_chain_messages_single(ch.layers@[1]);
    lemma_chain_messages_prepend(ch.layers@[0], seq![ch.layers@[1]]);
    assert(seq![ch.layers@[0]] + seq![ch.layers@[1]] =~= ch.layers@);
    assert(seq![ch.layers@[0].message@] + seq![ch.layers@[1].message@] =~= seq![
        ch.layers@[0].message@,
        ch.layers@[1].message@,
    ]);
}

impl ScrapeResult {
    /// Reduces a failure's cause chain to the structured error the caller
    /// sees: transport layers are dropped, everything else is kept in
    /// order.
    pub fn from_err(e: &ErrorChain) -> (r: ScrapeResult)
        ensures
            r matches ScrapeResult::Failed(err) && err.errors.deep_view() == chain_messages(
                e.layers@),
    {
        let mut errors: Vec<String> = Vec::new();
        let mut i: usize = 0;
        proof {
            assert(errors.deep_view() =~= chain_messages(e.layers@.take(0)));
        }
        while i < e.layers.len()
            invariant
                0 <= i <= e.layers@.len(),
                errors.deep_view() == chain_messages(e.layers@.take(i as int)),
            decreases e.layers@.len() - i,
        {
            let ghost prev = errors.deep_view();
            if !e.layers[i].transport {
                let m = e.layers[i].message.clone();
                errors.push(m);
                proof {
                    assert(errors.deep_view() =~= prev + seq![e.layers@[i as int].message@]);
                }
            }
            proof {
                assert(e.layers@.take(i as int + 1).drop_last() =~= e.layers@.take(i as int));
                assert(e.layers@.take(i as int + 1).last() == e.layers@[i as int]);
            }
            i = i + 1;
        }
        proof {
            assert(e.layers@.take(e.layers@.len() as int) =~= e.layers@);
        }
        ScrapeResult::Failed(ScrapeResultError { errors })
    }
}

} // verus!
