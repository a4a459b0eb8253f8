//! The streaming-completion protocol: the increments a provider delivers
//! while a completion request is in flight, and the assembly of fragments
//! into the final message.
//!
//! Each provider implementation yields a finite, non-restartable sequence of
//! increments: text fragments in arrival order, closed by exactly one
//! terminal — success carrying the fully assembled message, a classified
//! failure, or cancellation.  Failures never appear as fragments.

use vstd::prelude::*;
use vstd::string::StringExecFns;

verus! {

/// Classification every below-protocol failure must be mapped to before it
/// reaches the session engine; none of these is fatal to a session.
pub enum StreamError {
    /// The backend rejected the credential.
    Auth,
    /// The backend asked the client to slow down, with an optional hint in
    /// seconds for when to retry.
    RateLimited { retry_after: Option<u64> },
    /// The request itself was unacceptable, e.g. an unsupported model or
    /// conversation shape.
    InvalidRequest,
    /// A network-level failure.
    Transport,
    /// A backend-reported failure with an opaque message.
    Provider { message: String },
}

/// One unit of an in-flight response, produced in strict arrival order.
pub enum StreamIncrement {
    /// A text fragment to render as it arrives.
    Fragment(String),
    /// Terminal success carrying the fully assembled message.
    Success(String),
    /// Terminal, classified failure.
    Failed(StreamError),
    /// Terminal cancellation: already-delivered fragments stay valid.
    Cancelled,
}

/// The concatenation, in delivery order, of a sequence of fragment texts.
pub open spec fn concat_all(fs: Seq<Seq<char>>) -> Seq<char>
    decreases fs.len(),
{
    if fs.len() == 0 {
        Seq::empty()
    } else {
        fs[0] + concat_all(fs.drop_first())
    }
}

/// The text carried by a fragment increment (empty for terminals).
pub open spec fn fragment_text(inc: StreamIncrement) -> Seq<char> {
    match inc {
        StreamIncrement::Fragment(s) => s@,
        _ => Seq::empty(),
    }
}

/// The texts of a run of fragment increments, in delivery order.
pub open spec fn fragment_texts(incs: Seq<StreamIncrement>) -> Seq<Seq<char>> {
    incs.map_values(|inc: StreamIncrement| fragment_text(inc))
}

/// A well-formed stream is finite and closed by exactly one terminal: every
/// increment before the last is a fragment, the last is not.
pub open spec fn wf_stream(incs: Seq<StreamIncrement>) -> bool {
    &&& incs.len() >= 1
    &&& forall|i: int| 0 <= i < incs.len() - 1 ==> incs[i] is Fragment
    &&& !(incs[incs.len() - 1] is Fragment)
}

/// A stream's terminal success message is assembled: it equals the
/// concatenation, in delivery order, of all fragments the stream delivered.
pub open spec fn stream_assembles(incs: Seq<StreamIncrement>) -> bool {
    wf_stream(incs) ==> match incs[incs.len() - 1] {
        StreamIncrement::Success(m) => m@ == concat_all(
            fragment_texts(incs.take(incs.len() - 1)),
        ),
        _ => true,
    }
}

/// A run of fragments closed by a success terminal is a well-formed stream,
/// and such a stream is assembled exactly when the terminal's message is the
/// concatenation of the delivered fragments.
pub proof fn lemma_assembled_stream(frags: Seq<StreamIncrement>, message: String)
    requires
        forall|i: int| 0 <= i < frags.len() ==> frags[i] is Fragment,
    ensures
        wf_stream(frags.push(StreamIncrement::Success(message))),
        stream_assembles(frags.push(StreamIncrement::Success(message))) <==> message@
            == concat_all(fragment_texts(frags)),
{
    let chain = frags.push(StreamIncrement::Success(message));
    assert(chain[chain.len() - 1] == StreamIncrement::Success(message));
    assert(forall|i: int| 0 <= i < chain.len() - 1 ==> chain[i] == frags[i] && chain[i] is Fragment);
    assert(chain.take(chain.len() - 1) =~= frags);
}

/// Appending one more fragment extends the concatenation on the right.
pub proof fn lemma_concat_all_snoc(fs: Seq<Seq<char>>, x: Seq<char>)
    ensures
        concat_all(fs.push(x)) == concat_all(fs) + x,
    decreases fs.len(),
{
    if fs.len() == 0 {
        assert(fs.push(x).drop_first() =~= Seq::<Seq<char>>::empty());
        assert(concat_all(Seq::<Seq<char>>::empty()) == Seq::<char>::empty());
        assert(fs.push(x)[0] == x);
        assert(concat_all(fs.push(x)) =~= concat_all(fs) + x);
    } else {
        assert(fs.push(x).drop_first() =~= fs.drop_first().push(x));
        lemma_concat_all_snoc(fs.drop_first(), x);
        assert(concat_all(fs.push(x)) =~= concat_all(fs) + x);
    }
}

/// Assemble delivered fragments into the final message text, as a conforming
/// provider implementation does before emitting its `Success` terminal.
pub fn assemble(fragments: &Vec<String>) -> (r: String)
    ensures
        r@ == concat_all(fragments@.map_values(|s: String| s@)),
{
    let ghost texts = fragments@.map_values(|s: String| s@);
    let mut r = String::new();
    let mut i: usize = 0;
    proof {
        assert(texts.take(0) =~= Seq::<Seq<char>>::empty());
    }
    while i < fragments.len()
        invariant
            i <= fragments@.len(),
            texts == fragments@.map_values(|s: String| s@),
            r@ == concat_all(texts.take(i as int)),
        decreases fragments@.len() - i,
    {
        r.append(fragments[i].as_str());
        proof {
            lemma_concat_all_snoc(texts.take(i as int), texts[i as int]);
            assert(texts.take(i as int).push(texts[i as int]) =~= texts.take(i as int + 1));
        }
        i = i + 1;
    }
    proof {
        assert(texts.take(fragments@.len() as int) =~= texts);
    }
    r
}

impl StreamError {
    /// Human-readable classification of the failure, for reporting before
    /// the turn is left retryable.
    pub fn describe(&self) -> (r: String)
        ensures
            (self is Auth ==> r@ == "authentication failed"@),
            (self is RateLimited ==> r@ == "rate limited by the provider"@),
            (self is InvalidRequest ==> r@ == "the provider rejected the request as invalid"@),
            (self is Transport ==> r@ == "network failure while talking to the provider"@),
            (self is Provider ==> r@ == "the provider reported an error"@),
    {
        match self {
            StreamError::Auth => "authentication failed".to_owned(),
            StreamError::RateLimited { .. } => "rate limited by the provider".to_owned(),
            StreamError::InvalidRequest => "the provider rejected the request as invalid".to_owned(),
            StreamError::Transport => "network failure while talking to the provider".to_owned(),
            StreamError::Provider { .. } => "the provider reported an error".to_owned(),
        }
    }

    /// The retry hint, in seconds, when the backend supplied one.
    pub fn retry_after(&self) -> (r: Option<u64>)
        ensures
            match self {
                StreamError::RateLimited { retry_after } => r == retry_after,
                _ => r is None,
            },
    {
        match self {
            StreamError::RateLimited { retry_after } => *retry_after,
            _ => None,
        }
    }
}

} // verus!
