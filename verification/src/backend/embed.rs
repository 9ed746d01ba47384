//! The embedding adapter.
//!
//! Translates the runtime's request and result types to and from the engine's wire
//! format, which stays below the backend boundary.

use vstd::prelude::*;
use vstd::string::*;

use crate::backend::generate::{
    Exchange, RequestFault, WireErrorBody, a_refusal_is_told_apart, error_report,
    is_classified, refused_as,
};
use crate::http::{is_success, success};
use crate::inference::{is_first_for, EmbedRequest, Embedding, EmbeddingResult};
use crate::text::{decimal, decimal_u64, same_text, same_words, texts, words_stay};

verus! {

/// The engine's embedding path.
pub const EMBEDDINGS_PATH: &'static str = "/v1/embeddings";

/// How long one embedding request may take, in seconds.
pub const REQUEST_BUDGET_SECONDS: u64 = 60;

/// Why an embedding request failed.
///
/// Specific, because a backend that was never started in embedding mode, a rejected
/// credential and a malformed response are three different things to fix.
#[derive(Debug, Clone, PartialEq, Eq)]
pub enum EmbedError {
    /// The backend was not started in a mode that serves embeddings.
    NotSupported { detail: String },
    /// The backend refused the credential.
    Unauthorised { status: u16 },
    /// The backend answered with a failure status.
    Rejected { status: u16, detail: String },
    /// The backend's response could not be understood.
    MalformedResponse { detail: String },
    /// The request could not be delivered.
    Transport { detail: String },
}

/// A failed embedding request in words.
pub open spec fn embed_fault_text(fault: RequestFault) -> Seq<char> {
    match fault {
        RequestFault::NotSupported { detail } =>
            "the backend does not serve embeddings as started: "@ + detail,
        RequestFault::Unauthorised { status } => "the backend refused the runtime's credential ("@
            + decimal(status as nat) + ")"@,
        RequestFault::Rejected { status, detail } => "the backend rejected the request ("@
            + decimal(status as nat) + "): "@ + detail,
        RequestFault::MalformedResponse { detail } =>
            "the backend's embedding response was not usable: "@ + detail,
        RequestFault::Transport { detail } => "the embedding request failed: "@ + detail,
    }
}

impl EmbedError {
    pub open spec fn view(&self) -> RequestFault {
        match self {
            EmbedError::NotSupported { detail } => RequestFault::NotSupported { detail: detail@ },
            EmbedError::Unauthorised { status } => RequestFault::Unauthorised { status: *status },
            EmbedError::Rejected { status, detail } => RequestFault::Rejected {
                status: *status,
                detail: detail@,
            },
            EmbedError::MalformedResponse { detail } => RequestFault::MalformedResponse {
                detail: detail@,
            },
            EmbedError::Transport { detail } => RequestFault::Transport { detail: detail@ },
        }
    }

    pub fn to_string(&self) -> (text: String)
        ensures
            text@ == embed_fault_text(self@),
    {
        match self {
            EmbedError::NotSupported { detail } => {
                let mut text = "the backend does not serve embeddings as started: ".to_owned();
                text.append(detail.as_str());
                text
            },
            EmbedError::Unauthorised { status } => {
                let mut text = "the backend refused the runtime's credential (".to_owned();
                text.append(decimal_u64(*status as u64).as_str());
                text.append(")");
                text
            },
            EmbedError::Rejected { status, detail } => {
                let mut text = "the backend rejected the request (".to_owned();
                text.append(decimal_u64(*status as u64).as_str());
                text.append("): ");
                text.append(detail.as_str());
                text
            },
            EmbedError::MalformedResponse { detail } => {
                let mut text = "the backend's embedding response was not usable: ".to_owned();
                text.append(detail.as_str());
                text
            },
            EmbedError::Transport { detail } => {
                let mut text = "the embedding request failed: ".to_owned();
                text.append(detail.as_str());
                text
            },
        }
    }
}

/// The wire request.
#[derive(Debug, Clone, PartialEq, Eq)]
pub struct WireRequest {
    pub input: Vec<String>,
}

/// The wire form of a request: its inputs, in order.
pub fn wire_request(request: &EmbedRequest) -> (wire: WireRequest)
    ensures
        texts(wire.input@) == texts(request.inputs@),
        wire.input@.len() == request.inputs@.len(),
        forall|i: int|
            0 <= i < wire.input@.len() ==> (#[trigger] wire.input@[i])@ == request.inputs@[i]@,
{
    let mut input: Vec<String> = Vec::new();
    let mut i: usize = 0;
    while i < request.inputs.len()
        invariant
            i <= request.inputs@.len(),
            input@.len() == i,
            forall|j: int| 0 <= j < i ==> (#[trigger] input@[j])@ == request.inputs@[j]@,
        decreases request.inputs@.len() - i,
    {
        input.push(request.inputs[i].clone());
        i = i + 1;
    }
    assert(texts(input@) =~= texts(request.inputs@));
    WireRequest { input }
}

/// The engine's answer.
#[derive(Debug, Clone, PartialEq, Eq)]
pub struct WireResponse {
    pub data: Vec<WireEmbedding>,
}

/// One vector of an answer: 32-bit floats, held by their bits.
#[derive(Debug, Clone, PartialEq, Eq)]
pub struct WireEmbedding {
    pub index: usize,
    pub embedding: Vec<u32>,
}

/// Turns a failure answer into the most specific error its body supports. `error` is
/// the engine's error shape, when the body had it.
pub fn classify(status: u16, error: Option<WireErrorBody>, body: &[u8]) -> (fault: EmbedError)
    ensures
        fault@ == refused_as(status, error, body@),
        is_classified(fault@, status, error, body@),
{
    proof {
        a_refusal_is_told_apart(status, error, body@);
    }
    let (message, kind) = error_report(error, body);
    proof {
        assert(error is None ==> kind@ =~= Seq::empty());
    }
    if status == 401 || status == 403 {
        EmbedError::Unauthorised { status }
    } else if status == 501 || same_text(kind.as_str(), "not_supported_error") {
        EmbedError::NotSupported { detail: message }
    } else {
        EmbedError::Rejected { status, detail: message }
    }
}

/// Why an embedding request failed, if it did.
pub open spec fn embed_fault(exchange: Exchange<WireResponse>) -> Option<RequestFault> {
    match exchange {
        Exchange::Unencodable(reason) => Some(
            RequestFault::MalformedResponse { detail: "cannot encode the request: "@ + reason@ },
        ),
        Exchange::TimedOut => Some(RequestFault::Transport { detail: "no response within 60s"@ }),
        Exchange::Failed(reason) => Some(RequestFault::Transport { detail: reason@ }),
        Exchange::Answered { status, body, error, decoded } => if !success(status) {
            Some(refused_as(status, error, body@))
        } else {
            match decoded {
                Err(reason) => Some(RequestFault::MalformedResponse { detail: reason@ }),
                Ok(_) => None,
            }
        },
    }
}

/// Whether embeddings are the vectors of an answer, each with its index.
pub open spec fn carries(embeddings: Seq<Embedding>, data: Seq<WireEmbedding>) -> bool {
    &&& embeddings.len() == data.len()
    &&& forall|i: int|
        0 <= i < data.len() ==> (#[trigger] embeddings[i]).index == data[i].index
            && embeddings[i].vector@ == data[i].embedding@
}

/// Whether no two vectors of an answer have the same index.
pub open spec fn indices_differ(data: Seq<WireEmbedding>) -> bool {
    forall|i: int, j: int|
        0 <= i < j < data.len() ==> (#[trigger] data[i]).index != (#[trigger] data[j]).index
}

/// A vector belongs to the input that its index names, wherever in the answer it
/// stands: where the indices of an answer differ, what is found for the index of a
/// vector is that vector.
pub proof fn attribution_follows_the_index(
    embeddings: Seq<Embedding>,
    data: Seq<WireEmbedding>,
    i: int,
)
    requires
        carries(embeddings, data),
        indices_differ(data),
        0 <= i < data.len(),
    ensures
        exists|j: int| #[trigger]
            is_first_for(embeddings, data[i].index, j) && embeddings[j].vector@
                == data[i].embedding@,
        forall|j: int| #[trigger]
            is_first_for(embeddings, data[i].index, j) ==> embeddings[j].vector@
                == data[i].embedding@,
{
    assert(embeddings[i].index == data[i].index);
    assert forall|k: int| 0 <= k < embeddings.len() && (#[trigger] embeddings[k]).index
        == data[i].index implies k == i by {
        assert(embeddings[k].index == data[k].index);
        if k < i {
            assert(data[k].index != data[i].index);
        } else if i < k {
            assert(data[i].index != data[k].index);
        }
    }
    assert(is_first_for(embeddings, data[i].index, i));
}

/// In whatever order an answer gives its vectors, every input gets the same one: two
/// answers with the same vectors under the same indices attribute alike.
pub proof fn the_order_of_an_answer_makes_no_difference(
    a: Seq<Embedding>,
    b: Seq<Embedding>,
    sent: Seq<WireEmbedding>,
    other: Seq<WireEmbedding>,
    input: usize,
    i: int,
    j: int,
)
    requires
        carries(a, sent),
        carries(b, other),
        indices_differ(sent),
        indices_differ(other),
        forall|k: int|
            0 <= k < sent.len() ==> exists|l: int|
                0 <= l < other.len() && (#[trigger] other[l]).index == (#[trigger] sent[k]).index
                    && other[l].embedding@ == sent[k].embedding@,
        is_first_for(a, input, i),
        is_first_for(b, input, j),
    ensures
        a[i].vector@ == b[j].vector@,
{
    assert(sent[i].index == a[i].index);
    let l = choose|l: int|
        0 <= l < other.len() && (#[trigger] other[l]).index == sent[i].index
            && other[l].embedding@ == sent[i].embedding@;
    attribution_follows_the_index(b, other, l);
    assert(is_first_for(b, other[l].index, j));
}

/// The outcome of an embedding request that was sent and waited for.
pub fn embed(exchange: Exchange<WireResponse>) -> (outcome: Result<EmbeddingResult, EmbedError>)
    ensures
        match outcome {
            Ok(result) => embed_fault(exchange) is None && carries(
                result.embeddings@,
                exchange->Answered_decoded->Ok_0.data@,
            ),
            Err(error) => embed_fault(exchange) == Some(error@),
        },
        outcome is Ok <==> (exchange is Answered && 200 <= exchange->Answered_status < 300
            && exchange->Answered_decoded is Ok),
        outcome matches Ok(result) ==> {
            let data = exchange->Answered_decoded->Ok_0.data@;
            &&& result.embeddings@.len() == data.len()
            &&& forall|i: int|
                0 <= i < data.len() ==> (#[trigger] result.embeddings@[i]).index == data[i].index
                    && result.embeddings@[i].vector@ == data[i].embedding@
        },
        outcome matches Ok(result) ==> {
            let data = exchange->Answered_decoded->Ok_0.data@;
            indices_differ(data) ==> forall|i: int, j: int|
                #![trigger data[i], result.embeddings@[j]]
                0 <= i < data.len() && is_first_for(result.embeddings@, data[i].index, j)
                    ==> result.embeddings@[j].vector@ == data[i].embedding@
        },
{
    match exchange {
        Exchange::Unencodable(reason) => {
            let mut detail = "cannot encode the request: ".to_owned();
            detail.append(reason.as_str());
            Err(EmbedError::MalformedResponse { detail })
        },
        Exchange::TimedOut => Err(
            EmbedError::Transport { detail: "no response within 60s".to_owned() },
        ),
        Exchange::Failed(reason) => Err(EmbedError::Transport { detail: reason }),
        Exchange::Answered { status, body, error, decoded } => {
            if !is_success(status) {
                return Err(classify(status, error, body.as_slice()));
            }
            match decoded {
                Err(reason) => Err(EmbedError::MalformedResponse { detail: reason }),
                Ok(wire) => {
                    let ghost data = wire.data@;
                    let embeddings = embeddings_of(wire.data);
                    proof {
                        if indices_differ(data) {
                            assert forall|i: int, j: int|
                                #![trigger data[i], embeddings@[j]]
                                0 <= i < data.len() && is_first_for(
                                    embeddings@,
                                    data[i].index,
                                    j,
                                ) implies embeddings@[j].vector@ == data[i].embedding@ by {
                                attribution_follows_the_index(embeddings@, data, i);
                            }
                        }
                    }
                    Ok(EmbeddingResult { embeddings })
                },
            }
        },
    }
}

fn embeddings_of(data: Vec<WireEmbedding>) -> (embeddings: Vec<Embedding>)
    ensures
        carries(embeddings@, data@),
{
    let mut embeddings: Vec<Embedding> = Vec::new();
    for item in it: data.into_iter()
        invariant
            it.seq() == data@,
            embeddings@.len() == it.index(),
            forall|i: int|
                0 <= i < it.index() ==> (#[trigger] embeddings@[i]).index == data@[i].index
                    && embeddings@[i].vector@ == data@[i].embedding@,
    {
        embeddings.push(Embedding { index: item.index, vector: item.embedding });
    }
    embeddings
}

/// A fault tells what it is about, whole and in words that do not depend on it.
pub proof fn an_embedding_fault_tells_what_it_is_about(detail: Seq<char>, status: u16, other: u16)
    ensures
        embed_fault_text(RequestFault::NotSupported { detail }) == embed_fault_text(
            RequestFault::NotSupported { detail: Seq::empty() },
        ) + detail,
        embed_fault_text(RequestFault::MalformedResponse { detail }) == embed_fault_text(
            RequestFault::MalformedResponse { detail: Seq::empty() },
        ) + detail,
        embed_fault_text(RequestFault::Transport { detail }) == embed_fault_text(
            RequestFault::Transport { detail: Seq::empty() },
        ) + detail,
        embed_fault_text(RequestFault::Rejected { status, detail }) == embed_fault_text(
            RequestFault::Rejected { status, detail: Seq::empty() },
        ) + detail,
        same_words(
            embed_fault_text(RequestFault::Rejected { status, detail }),
            decimal(status as nat),
            embed_fault_text(RequestFault::Rejected { status: other, detail }),
            decimal(other as nat),
        ),
        same_words(
            embed_fault_text(RequestFault::Unauthorised { status }),
            decimal(status as nat),
            embed_fault_text(RequestFault::Unauthorised { status: other }),
            decimal(other as nat),
        ),
{
    let lead = "the backend rejected the request ("@;
    let behind = "): "@ + detail;
    let text = embed_fault_text(RequestFault::Rejected { status, detail });
    let second = embed_fault_text(RequestFault::Rejected { status: other, detail });
    assert(text =~= lead + decimal(status as nat) + behind);
    assert(second =~= lead + decimal(other as nat) + behind);
    words_stay(lead, decimal(status as nat), decimal(other as nat), behind, text, second);
    words_stay(
        "the backend refused the runtime's credential ("@,
        decimal(status as nat),
        decimal(other as nat),
        ")"@,
        embed_fault_text(RequestFault::Unauthorised { status }),
        embed_fault_text(RequestFault::Unauthorised { status: other }),
    );
}

/// A request that was not answered with vectors fails with what happened: the reason that
/// the exchange or the decoding failed for, that nothing came in time, or what the backend
/// refused it for.
pub proof fn a_failed_embedding_is_told(exchange: Exchange<WireResponse>)
    ensures
        match exchange {
            Exchange::Failed(reason) => embed_fault(exchange) == Some(
                RequestFault::Transport { detail: reason@ },
            ),
            Exchange::TimedOut => embed_fault(exchange) matches Some(fault) && fault is Transport,
            Exchange::Unencodable(reason) => embed_fault(exchange) matches Some(
                RequestFault::MalformedResponse { detail },
            ) && exists|before: Seq<char>| detail == #[trigger] (before + reason@),
            Exchange::Answered { status, body, error, decoded } => {
                &&& !(200 <= status < 300) ==> embed_fault(exchange) is Some && is_classified(
                    embed_fault(exchange)->0,
                    status,
                    error,
                    body@,
                )
                &&& 200 <= status < 300 && decoded is Err ==> embed_fault(exchange) == Some(
                    RequestFault::MalformedResponse { detail: decoded->Err_0@ },
                )
                &&& 200 <= status < 300 && decoded is Ok ==> embed_fault(exchange) is None
            },
        },
{
    if let Exchange::Answered { status, body, error, decoded } = exchange {
        a_refusal_is_told_apart(status, error, body@);
    }
    if let Exchange::Unencodable(reason) = exchange {
        assert(embed_fault(exchange)->0->MalformedResponse_detail == "cannot encode the request: "@
            + reason@);
    }
}

} // verus!
