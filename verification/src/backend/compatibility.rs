//! Whether this backend can run a given artifact, decided before spawning it.
//!
//! A container format is not a capability declaration. The preflight may answer
//! [`Compatibility::Unknown`]: metadata is often insufficient, and the backend
//! itself is the authority.

use vstd::prelude::*;
use vstd::string::*;

use crate::text::{
    contains_text, occurs_in, opt_text, same_text, what_occurs_stands_between_the_rest,
};

verus! {

/// The facts about an artifact this backend uses to make a preflight decision.
#[derive(Debug, Clone, PartialEq, Eq)]
pub struct ModelDescriptor {
    pub architecture: Option<String>,
    pub context_length: Option<u64>,
    pub embedding_length: Option<u64>,
    pub tokenizer_model: Option<String>,
    pub has_chat_template: bool,
}

impl Default for ModelDescriptor {
    fn default() -> (descriptor: ModelDescriptor)
        ensures
            descriptor.architecture is None,
            descriptor.context_length is None,
            descriptor.embedding_length is None,
            descriptor.tokenizer_model is None,
            !descriptor.has_chat_template,
    {
        ModelDescriptor {
            architecture: None,
            context_length: None,
            embedding_length: None,
            tokenizer_model: None,
            has_chat_template: false,
        }
    }
}

/// Whether the backend expects to be able to run an artifact.
#[derive(Debug, Clone, PartialEq, Eq)]
pub enum Compatibility {
    /// The backend is expected to run this artifact.
    Supported,
    /// The backend is known not to run this artifact. Do not spawn.
    Unsupported { reason: String },
    /// The available evidence does not decide it. Spawning is still allowed.
    Unknown { reason: String },
}

/// What a [`Compatibility`] says.
pub enum Verdict {
    Supported,
    Unsupported(Seq<char>),
    Unknown(Seq<char>),
}

impl Compatibility {
    pub open spec fn view(&self) -> Verdict {
        match self {
            Compatibility::Supported => Verdict::Supported,
            Compatibility::Unsupported { reason } => Verdict::Unsupported(reason@),
            Compatibility::Unknown { reason } => Verdict::Unknown(reason@),
        }
    }

    /// Whether starting the backend is worth attempting.
    pub fn permits_start(&self) -> (permitted: bool)
        ensures
            permitted == !(self@ is Unsupported),
            permitted == !(self is Unsupported),
    {
        !matches!(self, Compatibility::Unsupported { .. })
    }

    pub fn to_string(&self) -> (text: String)
        ensures
            text@ == match self@ {
                Verdict::Supported => "supported"@,
                Verdict::Unsupported(reason) => "unsupported: "@ + reason,
                Verdict::Unknown(reason) => "undetermined: "@ + reason,
            },
    {
        match self {
            Compatibility::Supported => "supported".to_owned(),
            Compatibility::Unsupported { reason } => {
                let mut text = "unsupported: ".to_owned();
                text.append(reason.as_str());
                text
            },
            Compatibility::Unknown { reason } => {
                let mut text = "undetermined: ".to_owned();
                text.append(reason.as_str());
                text
            },
        }
    }
}

/// How the backend should be started for a given artifact.
#[derive(Debug, Clone, Copy, PartialEq, Eq, Structural)]
pub enum LaunchMode {
    /// The engine's ordinary mode.
    General,
    /// Dedicated embedding mode, without which the engine refuses every embedding
    /// request.
    Embedding,
}

/// How to start the backend for an architecture: embedding mode only for one that
/// exists to produce embeddings (its name contains `bert`) and carries no
/// conversation template.
pub open spec fn mode_for(architecture: Option<Seq<char>>, has_chat_template: bool) -> LaunchMode {
    match architecture {
        Some(name) => if occurs_in("bert"@, name) && !has_chat_template {
            LaunchMode::Embedding
        } else {
            LaunchMode::General
        },
        None => LaunchMode::General,
    }
}

/// Embedding mode is for an architecture with `bert` anywhere in its name and no
/// conversation template, and for no other.
pub proof fn embedding_mode_is_for_bert(name: Seq<char>, has_chat_template: bool)
    ensures
        mode_for(Some(name), has_chat_template) is Embedding <==> !has_chat_template && exists|
            a: Seq<char>,
            b: Seq<char>,
        | name == #[trigger] (a + "bert"@ + b),
        mode_for(None, has_chat_template) is General,
{
    what_occurs_stands_between_the_rest("bert"@, name);
}

/// Chooses how to start the backend for an artifact.
pub fn launch_mode(descriptor: &ModelDescriptor) -> (mode: LaunchMode)
    ensures
        mode == mode_for(opt_text(descriptor.architecture), descriptor.has_chat_template),
        mode is Embedding <==> !descriptor.has_chat_template && descriptor.architecture is Some && (
        exists|a: Seq<char>, b: Seq<char>|
            descriptor.architecture->0@ == #[trigger] (a + "bert"@ + b)),
{
    proof {
        if descriptor.architecture is Some {
            what_occurs_stands_between_the_rest("bert"@, descriptor.architecture->0@);
        }
    }
    let embedding_oriented: bool = match &descriptor.architecture {
        Some(architecture) => contains_text(architecture.as_str(), "bert"),
        None => false,
    };
    if embedding_oriented && !descriptor.has_chat_template {
        LaunchMode::Embedding
    } else {
        LaunchMode::General
    }
}

/// What the metadata decides: only a projector, which is a companion to another
/// model, is known not to start.
pub open spec fn verdict_for(architecture: Option<Seq<char>>, has_tokenizer: bool) -> Verdict {
    match architecture {
        None => Verdict::Unknown("the container declares no architecture"@),
        Some(name) => if name == "clip"@ {
            Verdict::Unsupported(
                name + " is a companion projector rather than a standalone model"@,
            )
        } else if !has_tokenizer {
            Verdict::Unknown(
                name
                    + " declares no tokenizer, so whether it can be served alone is undetermined"@,
            )
        } else {
            Verdict::Unknown(name + " is not known to be unsupported; the backend decides"@)
        },
    }
}

/// Decides whether to attempt a start.
///
/// It does not infer generation capability from the architecture name, which tells
/// what the tensors are and not what the backend lets one ask of them.
pub fn assess(descriptor: &ModelDescriptor) -> (verdict: Compatibility)
    ensures
        verdict@ == verdict_for(
            opt_text(descriptor.architecture),
            descriptor.tokenizer_model is Some,
        ),
        verdict is Unsupported <==> (descriptor.architecture matches Some(name) && name@
            == "clip"@),
        !(verdict is Unsupported) ==> verdict is Unknown,
{
    match &descriptor.architecture {
        None => Compatibility::Unknown {
            reason: "the container declares no architecture".to_owned(),
        },
        Some(architecture) => {
            let mut reason = architecture.clone();
            if same_text(architecture.as_str(), "clip") {
                reason.append(" is a companion projector rather than a standalone model");
                return Compatibility::Unsupported { reason };
            }
            if descriptor.tokenizer_model.is_none() {
                reason.append(
                    " declares no tokenizer, so whether it can be served alone is undetermined",
                );
                return Compatibility::Unknown { reason };
            }
            reason.append(" is not known to be unsupported; the backend decides");
            Compatibility::Unknown { reason }
        },
    }
}

/// A chat template says how to format a conversation, not that the backend will
/// serve one: it makes no difference to the verdict, and only a projector is ever
/// refused a start.
pub proof fn only_a_projector_is_refused(architecture: Option<Seq<char>>, has_tokenizer: bool)
    ensures
        verdict_for(architecture, has_tokenizer) is Unsupported <==> architecture == Some("clip"@),
        architecture != Some("clip"@) ==> verdict_for(architecture, has_tokenizer) is Unknown,
{
}

/// The reason a verdict gives.
pub open spec fn reason_given(verdict: Verdict) -> Seq<char> {
    match verdict {
        Verdict::Supported => Seq::empty(),
        Verdict::Unsupported(reason) => reason,
        Verdict::Unknown(reason) => reason,
    }
}

/// A verdict names the architecture it is about, whole and first, in words that are the
/// same for all but the projector's; and it tells one with a tokenizer from one without.
pub proof fn a_verdict_names_the_architecture(
    name: Seq<char>,
    other: Seq<char>,
    has_tokenizer: bool,
)
    requires
        name != "clip"@,
        other != "clip"@,
    ensures
        exists|words: Seq<char>|
            reason_given(verdict_for(Some(name), has_tokenizer)) == #[trigger] (name + words)
                && reason_given(verdict_for(Some(other), has_tokenizer)) == other + words,
        reason_given(verdict_for(Some(name), true)) != reason_given(
            verdict_for(Some(name), false),
        ),
        exists|words: Seq<char>|
            reason_given(verdict_for(Some("clip"@), has_tokenizer)) == #[trigger] ("clip"@ + words),
{
    reveal_strlit(" declares no tokenizer, so whether it can be served alone is undetermined");
    reveal_strlit(" is not known to be unsupported; the backend decides");
    let words = if has_tokenizer {
        " is not known to be unsupported; the backend decides"@
    } else {
        " declares no tokenizer, so whether it can be served alone is undetermined"@
    };
    assert(reason_given(verdict_for(Some(name), has_tokenizer)) == name + words);
    assert(reason_given(verdict_for(Some("clip"@), has_tokenizer)) == "clip"@
        + " is a companion projector rather than a standalone model"@);
    assert(reason_given(verdict_for(Some(name), true)).len() != reason_given(
        verdict_for(Some(name), false),
    ).len());
}

} // verus!
