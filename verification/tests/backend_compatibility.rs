use mehoy::backend::compatibility::{assess, launch_mode, Compatibility, LaunchMode, ModelDescriptor};

fn descriptor(architecture: &str) -> ModelDescriptor {
    ModelDescriptor {
        architecture: Some(architecture.to_owned()),
        tokenizer_model: Some("gpt2".to_owned()),
        ..ModelDescriptor::default()
    }
}

#[test]
fn a_projector_is_refused_before_anything_is_spawned() {
    // Loading one alone always fails, so spending a process start to discover
    // that is waste.
    let verdict = assess(&descriptor("clip"));
    match &verdict {
        Compatibility::Unsupported { reason } => {
            assert!(reason.contains("projector"), "{reason}")
        }
        other => panic!("expected Unsupported, got {}", other.to_string()),
    }
    assert!(!verdict.permits_start());
}

#[test]
fn an_unfamiliar_architecture_is_undetermined_rather_than_refused() {
    // Refusing an unknown architecture would break the moment upstream adds
    // one, which happens often.
    let verdict = assess(&descriptor("some-future-architecture"));
    assert!(
        matches!(verdict, Compatibility::Unknown { .. }),
        "expected Unknown, got {}",
        verdict.to_string()
    );
    assert!(
        verdict.permits_start(),
        "an undetermined verdict must still allow a start"
    );
}

#[test]
fn an_embedding_architecture_is_not_refused() {
    // An embedding model loads perfectly well. Whether it can generate text is
    // a different question this preflight deliberately does not answer.
    let verdict = assess(&descriptor("nomic-bert"));
    assert!(verdict.permits_start());
}

#[test]
fn a_missing_architecture_is_undetermined() {
    let verdict = assess(&ModelDescriptor::default());
    match &verdict {
        Compatibility::Unknown { reason } => {
            assert!(reason.contains("architecture"), "{reason}")
        }
        other => panic!("expected Unknown, got {}", other.to_string()),
    }
    assert!(verdict.permits_start());
}

#[test]
fn a_chat_template_is_not_treated_as_a_capability_claim() {
    // Carrying a chat template says how to format a conversation, not that the
    // backend will serve one.
    let with_template = ModelDescriptor {
        has_chat_template: true,
        ..descriptor("llama")
    };
    let without = descriptor("llama");
    assert_eq!(
        assess(&with_template).permits_start(),
        assess(&without).permits_start()
    );
}

#[test]
fn only_a_projector_is_ever_refused_a_start() {
    for name in ["clip", "llama", "clip2", "", "nomic-bert"] {
        assert_eq!(assess(&descriptor(name)).permits_start(), name != "clip", "{name}");
    }
}

#[test]
fn every_verdict_says_why() {
    assert_eq!(
        assess(&descriptor("clip")).to_string(),
        "unsupported: clip is a companion projector rather than a standalone model"
    );
    assert_eq!(
        assess(&descriptor("llama")).to_string(),
        "undetermined: llama is not known to be unsupported; the backend decides"
    );
    assert_eq!(
        assess(&ModelDescriptor { tokenizer_model: None, ..descriptor("llama") }).to_string(),
        "undetermined: llama declares no tokenizer, so whether it can be served alone is \
         undetermined"
    );
    assert_eq!(
        assess(&ModelDescriptor::default()).to_string(),
        "undetermined: the container declares no architecture"
    );
    assert_eq!(Compatibility::Supported.to_string(), "supported");
}

#[test]
fn only_an_embedding_architecture_without_a_template_starts_in_embedding_mode() {
    assert_eq!(launch_mode(&descriptor("nomic-bert")), LaunchMode::Embedding);
    assert_eq!(launch_mode(&descriptor("bert")), LaunchMode::Embedding);
    assert_eq!(launch_mode(&descriptor("llama")), LaunchMode::General);
    assert_eq!(launch_mode(&ModelDescriptor::default()), LaunchMode::General);
    let conversational = ModelDescriptor { has_chat_template: true, ..descriptor("nomic-bert") };
    assert_eq!(launch_mode(&conversational), LaunchMode::General);
}
