use mehoy::backend::embed;
use mehoy::backend::embed::EmbedError;
use mehoy::backend::generate;
use mehoy::backend::generate::{
    cancellation_strategy, describe, finish_reason_for, is_unset, Exchange, GenerateError,
    WireChoice, WireErrorBody, WireUsage, SHOWN,
};
use mehoy::backend::health::{
    phase_for_status, probe, probe_credential, status_without_credential, CredentialState,
    HealthError, Readiness, StartupPhase, StatusAttempt,
};
use mehoy::cancel::CancellationStrategy;
use mehoy::inference::{
    EmbedRequest, FinishReason, GenerateTextRequest, GenerationParameters, GenerationUsage,
    Temperature,
};

/// The engine's error shape, where a body has it.
fn error_shape(body: &[u8]) -> Option<WireErrorBody> {
    let value: serde_json::Value = serde_json::from_slice(body).ok()?;
    let error = value.get("error")?;
    let field = |name: &str| {
        error.get(name).and_then(|v| v.as_str()).unwrap_or_default().to_owned()
    };
    Some(WireErrorBody { message: field("message"), kind: field("type") })
}

fn classify_embed(status: u16, body: &[u8]) -> EmbedError {
    embed::classify(status, error_shape(body), body)
}

fn classify_generate(status: u16, body: &[u8]) -> GenerateError {
    generate::classify(status, error_shape(body), body)
}

/// A completion answer, decoded.
fn completion(body: &str) -> generate::WireResponse {
    let value: serde_json::Value = serde_json::from_str(body).expect("parses");
    let choices = value["choices"]
        .as_array()
        .expect("a list")
        .iter()
        .map(|choice| WireChoice {
            text: choice["text"].as_str().unwrap_or_default().to_owned(),
            finish_reason: choice["finish_reason"].as_str().map(str::to_owned),
        })
        .collect();
    let usage = value.get("usage").map(|usage| WireUsage {
        prompt_tokens: usage["prompt_tokens"].as_u64().expect("a count"),
        completion_tokens: usage["completion_tokens"].as_u64().expect("a count"),
    });
    generate::WireResponse { choices, usage }
}

/// An embedding answer, decoded.
fn vectors(body: &str) -> embed::WireResponse {
    let value: serde_json::Value = serde_json::from_str(body).expect("parses");
    let data = value["data"]
        .as_array()
        .expect("a list")
        .iter()
        .map(|item| embed::WireEmbedding {
            index: item["index"].as_u64().expect("an index") as usize,
            embedding: item["embedding"]
                .as_array()
                .expect("a vector")
                .iter()
                .map(|v| (v.as_f64().expect("a number") as f32).to_bits())
                .collect(),
        })
        .collect();
    embed::WireResponse { data }
}

fn answered<T>(status: u16, body: &[u8], decoded: Result<T, String>) -> Exchange<T> {
    Exchange::Answered { status, body: body.to_vec(), error: error_shape(body), decoded }
}

fn wire(parameters: GenerationParameters) -> generate::WireRequest {
    let request = GenerateTextRequest::continuation("hello").with_parameters(parameters);
    generate::wire_request(&request, false)
}

fn zero() -> Temperature {
    Temperature { bits: 0.0f32.to_bits(), shown: "0".to_owned() }
}

// ------------------------------------------------------------------- embeddings

#[test]
fn an_unsupported_mode_is_distinguished_from_a_rejected_request() {
    let body = br#"{"error":{"code":501,"message":"This server does not support embeddings. Start it with `--embeddings`","type":"not_supported_error"}}"#;
    match classify_embed(501, body) {
        EmbedError::NotSupported { detail } => {
            assert!(detail.contains("does not support embeddings"), "{detail}");
        }
        other => panic!("expected NotSupported, got {}", other.to_string()),
    }
}

#[test]
fn a_refused_credential_is_its_own_error() {
    // Collapsing this into a generic failure would send an operator looking at
    // the model when the problem is the credential.
    for status in [401, 403] {
        match classify_embed(status, b"{}") {
            EmbedError::Unauthorised { status: reported } => assert_eq!(reported, status),
            other => panic!("expected Unauthorised for {status}, got {}", other.to_string()),
        }
    }
}

#[test]
fn the_not_supported_type_is_honoured_even_on_another_status() {
    match classify_embed(
        400,
        br#"{"error":{"message":"nope","type":"not_supported_error"}}"#,
    ) {
        EmbedError::NotSupported { .. } => {}
        other => panic!("expected NotSupported, got {}", other.to_string()),
    }
}

#[test]
fn an_ordinary_failure_keeps_its_status_and_message() {
    match classify_embed(
        400,
        br#"{"error":{"message":"input too long","type":"invalid_request_error"}}"#,
    ) {
        EmbedError::Rejected { status, detail } => {
            assert_eq!(status, 400);
            assert_eq!(detail, "input too long");
        }
        other => panic!("expected Rejected, got {}", other.to_string()),
    }
}

#[test]
fn a_non_json_body_still_produces_a_usable_message() {
    match classify_embed(500, b"upstream exploded") {
        EmbedError::Rejected { detail, .. } => assert_eq!(detail, "upstream exploded"),
        other => panic!("expected Rejected, got {}", other.to_string()),
    }
}

#[test]
fn a_response_carries_indices_through_from_the_wire() {
    let body = r#"{"object":"list","data":[{"index":1,"embedding":[0.1,0.2]},{"index":0,"embedding":[0.3,0.4]}]}"#;
    let wire = vectors(body);
    assert_eq!(wire.data.len(), 2);
    assert_eq!(wire.data[0].index, 1);
    assert_eq!(wire.data[1].index, 0);

    let result = embed::embed(answered(200, body.as_bytes(), Ok(wire))).expect("a result");
    assert_eq!(result.embeddings.len(), 2);
    assert_eq!(result.embeddings[0].index, 1);
    assert_eq!(result.embeddings[1].index, 0);
    assert_eq!(
        result.for_input(0).expect("attributable").vector,
        vec![0.3f32.to_bits(), 0.4f32.to_bits()]
    );
}

#[test]
fn a_body_that_is_not_text_is_shown_with_its_broken_parts_replaced() {
    assert_eq!(
        classify_embed(500, b"bad \xff byte"),
        EmbedError::Rejected { status: 500, detail: "bad \u{fffd} byte".to_owned() }
    );
}

#[test]
fn every_way_an_embedding_request_fails_is_told_apart() {
    assert_eq!(
        embed::embed(Exchange::Unencodable("too deep".to_owned())),
        Err(EmbedError::MalformedResponse {
            detail: "cannot encode the request: too deep".to_owned()
        })
    );
    assert_eq!(
        embed::embed(Exchange::TimedOut),
        Err(EmbedError::Transport { detail: "no response within 60s".to_owned() })
    );
    assert_eq!(
        embed::embed(Exchange::Failed("connection refused".to_owned())),
        Err(EmbedError::Transport { detail: "connection refused".to_owned() })
    );
    assert_eq!(
        embed::embed(answered(200, b"x", Err("expected value".to_owned()))),
        Err(EmbedError::MalformedResponse { detail: "expected value".to_owned() })
    );
    // A failure status decides, whatever the body could be read as.
    assert_eq!(
        embed::embed(answered(503, b"busy", Ok(embed::WireResponse { data: vec![] }))),
        Err(EmbedError::Rejected { status: 503, detail: "busy".to_owned() })
    );
}

#[test]
fn embedding_failures_are_put_in_words() {
    let detail = || "why".to_owned();
    assert_eq!(
        EmbedError::NotSupported { detail: detail() }.to_string(),
        "the backend does not serve embeddings as started: why"
    );
    assert_eq!(
        EmbedError::Unauthorised { status: 401 }.to_string(),
        "the backend refused the runtime's credential (401)"
    );
    assert_eq!(
        EmbedError::Rejected { status: 500, detail: detail() }.to_string(),
        "the backend rejected the request (500): why"
    );
    assert_eq!(
        EmbedError::MalformedResponse { detail: detail() }.to_string(),
        "the backend's embedding response was not usable: why"
    );
    assert_eq!(
        EmbedError::Transport { detail: detail() }.to_string(),
        "the embedding request failed: why"
    );
}

#[test]
fn the_inputs_of_an_embedding_request_are_sent_in_order() {
    let request = EmbedRequest::batch(&["b", "a"]);
    assert_eq!(embed::wire_request(&request).input, vec!["b", "a"]);
}

// ------------------------------------------------------------------- generation

#[test]
fn unset_parameters_are_omitted_rather_than_defaulted() {
    // Sending a value the caller did not choose would freeze one engine's current
    // default into the runtime's behaviour.
    let wire = wire(GenerationParameters::default());
    assert_eq!(wire.prompt, "hello");
    assert_eq!(wire.n_predict, None);
    assert_eq!(wire.temperature, None);
    assert_eq!(wire.seed, None);
    assert!(wire.stop.is_empty());
    assert!(is_unset(&wire.stream));
}

#[test]
fn set_parameters_are_sent() {
    let wire = wire(GenerationParameters {
        max_output_tokens: Some(16),
        temperature: Some(zero()),
        seed: Some(42),
        stop: vec!["\n\n".to_owned()],
    });
    assert_eq!(wire.n_predict, Some(16));
    assert_eq!(wire.temperature.map(|t| f32::from_bits(t.bits)), Some(0.0));
    assert_eq!(wire.seed, Some(42));
    assert_eq!(wire.stop[0], "\n\n");
}

#[test]
fn a_zero_temperature_is_sent_rather_than_treated_as_unset() {
    // Zero is a meaningful request for the most deterministic sampling available,
    // and is not the same as having no opinion.
    let wire = wire(GenerationParameters {
        temperature: Some(zero()),
        ..GenerationParameters::default()
    });
    assert!(wire.temperature.is_some(), "an explicit zero must reach the backend");
}

#[test]
fn a_streaming_request_says_so() {
    let request = GenerateTextRequest::continuation("hello");
    let wire = generate::wire_request(&request, true);
    assert!(wire.stream);
    assert!(!is_unset(&wire.stream));
}

#[test]
fn the_measured_response_shape_parses() {
    let body = r#"{"choices":[{"text":" cold.","index":0,"logprobs":null,"finish_reason":"length"}],"usage":{"completion_tokens":8,"prompt_tokens":13,"total_tokens":21}}"#;
    let wire = completion(body);
    assert_eq!(wire.choices[0].text, " cold.");
    assert_eq!(wire.choices[0].finish_reason.as_deref(), Some("length"));
    let usage = wire.usage.expect("usage present");
    assert_eq!(usage.completion_tokens, 8);
    assert_eq!(usage.prompt_tokens, 13);

    let result = generate::generate(answered(200, body.as_bytes(), Ok(wire))).expect("a result");
    assert_eq!(result.text, " cold.");
    assert_eq!(result.finish_reason, FinishReason::Length);
    assert_eq!(result.usage, Some(GenerationUsage { input_tokens: 13, output_tokens: 8 }));
}

#[test]
fn finish_reasons_are_normalised_without_losing_unfamiliar_ones() {
    assert_eq!(finish_reason_for(Some("stop")), FinishReason::Stop);
    assert_eq!(finish_reason_for(Some("length")), FinishReason::Length);
    assert_eq!(
        finish_reason_for(Some("tool_calls")),
        FinishReason::Other("tool_calls".to_owned())
    );
    assert_eq!(
        finish_reason_for(None),
        FinishReason::Other("unreported".to_owned())
    );
}

#[test]
fn a_refused_credential_stays_its_own_error() {
    match classify_generate(401, b"{}") {
        GenerateError::Unauthorised { status } => assert_eq!(status, 401),
        other => panic!("expected Unauthorised, got {}", other.to_string()),
    }
}

#[test]
fn a_response_with_no_choices_is_malformed_rather_than_empty_output() {
    // Distinguishing these matters: an empty choices array is a broken response,
    // whereas an empty string in a choice is a model that generated nothing.
    let body = r#"{"choices":[]}"#;
    let wire = completion(body);
    assert!(wire.choices.is_empty());
    assert_eq!(
        generate::generate(answered(200, body.as_bytes(), Ok(wire))),
        Err(GenerateError::MalformedResponse {
            detail: "the response contained no choices".to_owned()
        })
    );
}

#[test]
fn every_way_a_generation_request_fails_is_told_apart() {
    assert_eq!(
        generate::generate(Exchange::Unencodable("too deep".to_owned())),
        Err(GenerateError::MalformedResponse {
            detail: "cannot encode the request: too deep".to_owned()
        })
    );
    assert_eq!(
        generate::generate(Exchange::TimedOut),
        Err(GenerateError::Transport { detail: "no response within 300s".to_owned() })
    );
    assert_eq!(
        generate::generate(Exchange::Failed("reset".to_owned())),
        Err(GenerateError::Transport { detail: "reset".to_owned() })
    );
    assert_eq!(
        generate::generate(answered(200, b"{", Err("EOF".to_owned()))),
        Err(GenerateError::MalformedResponse { detail: "EOF".to_owned() })
    );
    assert_eq!(
        classify_generate(501, b"no \xff"),
        GenerateError::NotSupported { detail: "no \u{fffd}".to_owned() }
    );
    assert_eq!(
        classify_generate(500, br#"{"error":{"message":"boom","type":"server_error"}}"#),
        GenerateError::Rejected { status: 500, detail: "boom".to_owned() }
    );
}

#[test]
fn generation_failures_are_put_in_words() {
    let detail = || "why".to_owned();
    assert_eq!(
        GenerateError::NotSupported { detail: detail() }.to_string(),
        "the backend does not generate text as started: why"
    );
    assert_eq!(
        GenerateError::Unauthorised { status: 403 }.to_string(),
        "the backend refused the runtime's credential (403)"
    );
    assert_eq!(
        GenerateError::Rejected { status: 400, detail: detail() }.to_string(),
        "the backend rejected the request (400): why"
    );
    assert_eq!(
        GenerateError::MalformedResponse { detail: detail() }.to_string(),
        "the backend's generation response was not usable: why"
    );
    assert_eq!(
        GenerateError::Transport { detail: detail() }.to_string(),
        "the generation request failed: why"
    );
}

#[test]
fn an_unparseable_event_is_quoted_up_to_a_bound() {
    assert_eq!(describe("bad", "short"), "bad, in: short");
    let exact = "\u{e9}".repeat(SHOWN);
    assert_eq!(describe("bad", &exact), format!("bad, in: {exact}"));
    let long = format!("{exact}x");
    assert_eq!(describe("bad", &long), format!("bad, in: {exact}..."));
}

#[test]
fn this_engine_is_stopped_by_closing_its_connection() {
    assert_eq!(cancellation_strategy(), CancellationStrategy::ConnectionAbort);
}

// ----------------------------------------------------------------------- health

#[test]
fn a_serving_backend_is_ready() {
    assert_eq!(
        phase_for_status(200).expect("ok is not terminal"),
        StartupPhase::BackendReady
    );
}

#[test]
fn service_unavailable_means_still_loading_not_failed() {
    // Treating 503 as a failure would abandon every backend that takes more than an
    // instant to load a model.
    assert_eq!(
        phase_for_status(503).expect("503 is not terminal"),
        StartupPhase::LoadingModel
    );
}

#[test]
fn a_rejected_secret_is_terminal_rather_than_retried() {
    for status in [401, 403] {
        let err = phase_for_status(status).expect_err("must be terminal");
        assert!(
            matches!(err, HealthError::Rejected { .. }),
            "{status} should be terminal, got {}",
            err.to_string()
        );
    }
}

#[test]
fn backend_ready_is_not_inference_verified() {
    // Health reporting success is not evidence that generation works, and conflating
    // them would overstate what is known.
    assert_ne!(Readiness::BackendReady, Readiness::InferenceVerified);
}

#[test]
fn readiness_is_backend_ready_and_not_inference_verified() {
    assert_ne!(Readiness::BackendReady, Readiness::InferenceVerified);
}

#[test]
fn an_unexpected_status_keeps_waiting_within_the_deadline() {
    assert_eq!(
        phase_for_status(404).expect("not terminal"),
        StartupPhase::LoadingModel
    );
}

#[test]
fn a_backend_that_cannot_be_reached_is_still_coming_up() {
    assert_eq!(
        probe(StatusAttempt::Failed("refused".to_owned())),
        Ok(StartupPhase::WaitingForEndpoint)
    );
    assert_eq!(probe(StatusAttempt::TimedOut), Ok(StartupPhase::WaitingForEndpoint));
    assert_eq!(probe(StatusAttempt::Answered(200)), Ok(StartupPhase::BackendReady));
    assert_eq!(
        probe(StatusAttempt::Answered(401)),
        Err(HealthError::Rejected { status: 401 })
    );
}

#[test]
fn a_credential_is_accepted_by_any_success_and_refused_by_anything_else() {
    assert_eq!(probe_credential(StatusAttempt::Answered(204)), Ok(CredentialState::Accepted));
    assert_eq!(
        probe_credential(StatusAttempt::Answered(404)),
        Ok(CredentialState::Refused { status: 404 })
    );
    assert_eq!(
        probe_credential(StatusAttempt::TimedOut),
        Err(HealthError::Transport("credential check timed out".to_owned()))
    );
    assert_eq!(
        probe_credential(StatusAttempt::Failed("reset".to_owned())),
        Err(HealthError::Transport("reset".to_owned()))
    );
}

#[test]
fn a_status_without_a_credential_is_reported_as_it_came() {
    assert_eq!(status_without_credential(StatusAttempt::Answered(401)), Ok(401));
    assert_eq!(
        status_without_credential(StatusAttempt::TimedOut),
        Err(HealthError::Transport("request timed out".to_owned()))
    );
    assert_eq!(
        status_without_credential(StatusAttempt::Failed("reset".to_owned())),
        Err(HealthError::Transport("reset".to_owned()))
    );
}

#[test]
fn health_failures_and_phases_are_put_in_words() {
    assert_eq!(
        HealthError::Rejected { status: 401 }.to_string(),
        "backend health returned 401 Unauthorized, which is terminal"
    );
    assert_eq!(
        HealthError::Transport("reset".to_owned()).to_string(),
        "backend health request failed: reset"
    );
    assert_eq!(StartupPhase::WaitingForEndpoint.to_string(), "waiting for endpoint");
    assert_eq!(StartupPhase::LoadingModel.to_string(), "loading model");
    assert_eq!(StartupPhase::BackendReady.to_string(), "backend ready");
}
