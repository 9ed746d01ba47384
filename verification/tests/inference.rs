use mehoy::inference::{
    validate, validate_generation, EmbedRequest, Embedding, EmbeddingResult, FinishReason,
    GenerateTextRequest, GenerationDefect, GenerationParameters, GenerationResult,
    GenerationUsage, InvalidGenerationParameter, ResultDefect, Task, TaskId, Temperature,
    TextInput, MAX_STOP_SEQUENCES, MAX_STOP_SEQUENCE_BYTES,
};

fn temperature(value: f32) -> Temperature {
    Temperature { bits: value.to_bits(), shown: value.to_string() }
}

fn embedding(index: usize, values: &[f32]) -> Embedding {
    Embedding {
        index,
        vector: values.iter().map(|v| v.to_bits()).collect(),
    }
}

fn result(embeddings: Vec<Embedding>) -> EmbeddingResult {
    EmbeddingResult { embeddings }
}

#[test]
fn a_well_formed_result_validates() {
    let request = EmbedRequest::single("hello");
    let response = result(vec![embedding(0, &[0.6, 0.8])]);
    assert!(validate(&request, &response).is_ok());
}

#[test]
fn a_missing_embedding_is_a_defect() {
    let request = EmbedRequest::batch(&["a", "b"]);
    let response = result(vec![embedding(0, &[1.0])]);
    assert_eq!(
        validate(&request, &response),
        Err(ResultDefect::CountMismatch {
            expected: 2,
            actual: 1
        })
    );
}

#[test]
fn a_non_finite_value_is_rejected_rather_than_passed_on() {
    // A NaN silently poisons every distance computed from the vector, so it is
    // not a lesser problem than an error response.
    for bad in [f32::NAN, f32::INFINITY, f32::NEG_INFINITY] {
        let request = EmbedRequest::single("x");
        let response = result(vec![embedding(0, &[0.5, bad])]);
        assert_eq!(
            validate(&request, &response),
            Err(ResultDefect::NonFiniteValue { index: 0 }),
            "{bad} should have been rejected"
        );
    }
}

#[test]
fn an_empty_vector_is_rejected() {
    let request = EmbedRequest::single("x");
    let response = result(vec![embedding(0, &[])]);
    assert_eq!(
        validate(&request, &response),
        Err(ResultDefect::EmptyVector { index: 0 })
    );
}

#[test]
fn differing_dimensions_in_one_response_are_rejected() {
    let request = EmbedRequest::batch(&["a", "b"]);
    let response = result(vec![embedding(0, &[1.0, 0.0]), embedding(1, &[1.0])]);
    assert_eq!(
        validate(&request, &response),
        Err(ResultDefect::InconsistentDimension)
    );
}

#[test]
fn a_duplicate_index_is_rejected() {
    // Two vectors both claiming input zero means one input has no answer.
    let request = EmbedRequest::batch(&["a", "b"]);
    let response = result(vec![embedding(0, &[1.0]), embedding(0, &[1.0])]);
    assert_eq!(
        validate(&request, &response),
        Err(ResultDefect::UnattributableIndex { index: 0 })
    );
}

#[test]
fn an_out_of_range_index_is_rejected() {
    let request = EmbedRequest::single("a");
    let response = result(vec![embedding(7, &[1.0])]);
    assert_eq!(
        validate(&request, &response),
        Err(ResultDefect::UnattributableIndex { index: 7 })
    );
}

#[test]
fn embeddings_are_attributable_by_index_not_position() {
    let response = result(vec![embedding(1, &[2.0]), embedding(0, &[1.0])]);
    assert_eq!(response.for_input(0).map(|e| f32::from_bits(e.vector[0])), Some(1.0));
    assert_eq!(response.for_input(1).map(|e| f32::from_bits(e.vector[0])), Some(2.0));
}

#[test]
fn a_task_this_build_does_not_define_is_still_expressible() {
    // The runtime must not be limited to the model classes its authors
    // anticipated. A backend offering something unnamed here can still be asked
    // for it.
    let task = Task::Custom(TaskId::new("segment-image"));
    assert_eq!(task.to_string(), "custom:segment-image");
    assert_ne!(task, Task::Embed);
}

#[test]
fn a_negative_or_unusable_temperature_is_rejected_not_clamped() {
    // Clamping would produce output the caller did not ask for and cannot
    // explain from what they sent.
    for bad in [-0.1f32, f32::NAN, f32::INFINITY] {
        let parameters = GenerationParameters {
            temperature: Some(temperature(bad)),
            ..GenerationParameters::default()
        };
        assert!(
            matches!(
                parameters.validate(),
                Err(InvalidGenerationParameter::Temperature { .. })
            ),
            "temperature {bad} should have been rejected"
        );
    }
}

#[test]
fn a_zero_temperature_is_allowed() {
    let parameters = GenerationParameters {
        temperature: Some(temperature(0.0)),
        ..GenerationParameters::default()
    };
    assert!(parameters.validate().is_ok());
}

#[test]
fn a_zero_token_budget_is_rejected() {
    let parameters = GenerationParameters {
        max_output_tokens: Some(0),
        ..GenerationParameters::default()
    };
    assert!(matches!(
        parameters.validate(),
        Err(InvalidGenerationParameter::MaxOutputTokens { .. })
    ));
}

#[test]
fn stop_sequences_are_bounded_because_request_content_is_untrusted() {
    let too_many = GenerationParameters {
        stop: (0..MAX_STOP_SEQUENCES + 1).map(|i| i.to_string()).collect(),
        ..GenerationParameters::default()
    };
    assert!(matches!(
        too_many.validate(),
        Err(InvalidGenerationParameter::StopSequences { .. })
    ));

    let too_large = GenerationParameters {
        stop: vec!["x".repeat(MAX_STOP_SEQUENCE_BYTES + 1)],
        ..GenerationParameters::default()
    };
    assert!(matches!(
        too_large.validate(),
        Err(InvalidGenerationParameter::StopSequences { .. })
    ));
}

#[test]
fn an_empty_stop_sequence_is_rejected() {
    let parameters = GenerationParameters {
        stop: vec![String::new()],
        ..GenerationParameters::default()
    };
    assert!(matches!(
        parameters.validate(),
        Err(InvalidGenerationParameter::StopSequences { .. })
    ));
}

#[test]
fn unset_parameters_are_not_defaults() {
    // Nothing is materialised, so the backend applies its own default and the caller
    // can still express having no opinion.
    let parameters = GenerationParameters::default();
    assert_eq!(parameters.temperature, None);
    assert_eq!(parameters.max_output_tokens, None);
    assert_eq!(parameters.seed, None);
    assert!(parameters.stop.is_empty());
    assert!(parameters.validate().is_ok());
}

#[test]
fn a_successful_response_with_no_content_is_not_generation() {
    // A broken backend returning success with an empty body must not be able to
    // verify a capability.
    let result = GenerationResult {
        text: String::new(),
        finish_reason: FinishReason::Stop,
        usage: None,
    };
    assert_eq!(
        validate_generation(&result),
        Err(GenerationDefect::NoContent)
    );
}

#[test]
fn content_with_zero_reported_output_tokens_is_implausible() {
    let result = GenerationResult {
        text: "something".to_owned(),
        finish_reason: FinishReason::Stop,
        usage: Some(GenerationUsage {
            input_tokens: 5,
            output_tokens: 0,
        }),
    };
    assert!(matches!(
        validate_generation(&result),
        Err(GenerationDefect::ImplausibleUsage { .. })
    ));
}

#[test]
fn an_unfamiliar_finish_reason_is_not_reported_as_a_known_one() {
    let reason = FinishReason::Other("tool_call".to_owned());
    assert_ne!(reason, FinishReason::Stop);
    assert_ne!(reason, FinishReason::Length);
    assert_eq!(reason.to_string(), "other:tool_call");
}

#[test]
fn continuation_is_the_only_input_shape_so_far() {
    // A conversation variant arrives when something can render one.
    let input = TextInput::Continuation("Once upon a time".to_owned());
    assert_eq!(input.as_str(), "Once upon a time");
}

#[test]
fn only_implemented_tasks_have_their_own_variant() {
    // Guards the rule rather than the list. A variant added without an
    // implementation behind it is a promise the runtime does not keep, so a
    // future task should arrive with its implementation or as Custom.
    assert_eq!(Task::Embed.to_string(), "embed");
    assert_eq!(Task::GenerateText.to_string(), "generate-text");
}

#[test]
fn a_valid_result_answers_every_input_once() {
    let request = EmbedRequest::batch(&["a", "b", "c"]);
    assert_eq!(request.len(), 3);
    assert!(!request.is_empty());
    assert!(EmbedRequest::batch(&[]).is_empty());
    let response = result(vec![
        embedding(2, &[1.0, 2.0]),
        embedding(0, &[3.0, 4.0]),
        embedding(1, &[5.0, 6.0]),
    ]);
    assert!(validate(&request, &response).is_ok());
    assert_eq!(response.dimension(), Some(2));
    for index in 0..3 {
        assert_eq!(response.for_input(index).map(Embedding::dimension), Some(2));
    }
    assert_eq!(response.for_input(3), None);
    assert_eq!(result(vec![]).dimension(), None);
}

#[test]
fn the_largest_and_smallest_numbers_are_finite() {
    assert!(embedding(0, &[f32::MAX, f32::MIN, f32::MIN_POSITIVE, -0.0]).is_finite());
    assert!(!embedding(0, &[f32::NAN]).is_finite());
}

#[test]
fn a_negative_zero_temperature_is_allowed() {
    let parameters = GenerationParameters {
        temperature: Some(temperature(-0.0)),
        ..GenerationParameters::default()
    };
    assert!(parameters.validate().is_ok());
}

#[test]
fn the_first_invalid_parameter_is_the_one_reported() {
    let reason_of = |parameters: GenerationParameters| {
        parameters.validate().expect_err("must be rejected").to_string()
    };
    assert_eq!(
        reason_of(GenerationParameters {
            temperature: Some(temperature(-1.5)),
            max_output_tokens: Some(0),
            ..GenerationParameters::default()
        }),
        "temperature is invalid: -1.5 is negative"
    );
    assert_eq!(
        reason_of(GenerationParameters {
            temperature: Some(temperature(f32::NAN)),
            ..GenerationParameters::default()
        }),
        "temperature is invalid: NaN is not a finite number"
    );
    assert_eq!(
        reason_of(GenerationParameters {
            max_output_tokens: Some(0),
            ..GenerationParameters::default()
        }),
        "max_output_tokens is invalid: zero asks for no output at all"
    );
    assert_eq!(
        reason_of(GenerationParameters {
            stop: vec!["x".to_owned(); MAX_STOP_SEQUENCES + 1],
            ..GenerationParameters::default()
        }),
        "stop sequences are invalid: 9 sequences exceeds the limit of 8"
    );
    // The bound is on bytes: two for each of these characters.
    assert_eq!(
        reason_of(GenerationParameters {
            stop: vec!["ok".to_owned(), "\u{e9}".repeat(MAX_STOP_SEQUENCE_BYTES / 2 + 1)],
            ..GenerationParameters::default()
        }),
        "stop sequences are invalid: a sequence of 258 bytes exceeds the limit of 256"
    );
    assert_eq!(
        reason_of(GenerationParameters {
            stop: vec![String::new()],
            ..GenerationParameters::default()
        }),
        "stop sequences are invalid: an empty sequence would stop generation immediately"
    );
}

#[test]
fn limits_themselves_are_allowed() {
    let parameters = GenerationParameters {
        max_output_tokens: Some(1),
        temperature: Some(temperature(2.0)),
        seed: Some(0),
        stop: vec!["x".repeat(MAX_STOP_SEQUENCE_BYTES); MAX_STOP_SEQUENCES],
    };
    assert!(parameters.validate().is_ok());
}

#[test]
fn result_defects_are_put_in_words() {
    assert!(
        ResultDefect::CountMismatch { expected: 2, actual: 1 }.to_string().contains("2"),
    );
    let defects = [
        ResultDefect::CountMismatch { expected: 2, actual: 1 },
        ResultDefect::EmptyVector { index: 3 },
        ResultDefect::NonFiniteValue { index: 3 },
        ResultDefect::InconsistentDimension,
        ResultDefect::UnattributableIndex { index: 3 },
    ];
    for (i, a) in defects.iter().enumerate() {
        for (j, b) in defects.iter().enumerate() {
            assert_eq!(a.to_string() == b.to_string(), i == j);
        }
    }
}

#[test]
fn plausible_generations_are_valid() {
    let plain = GenerationResult {
        text: "x".to_owned(),
        finish_reason: FinishReason::Length,
        usage: None,
    };
    assert!(validate_generation(&plain).is_ok());
    let counted = GenerationResult {
        usage: Some(GenerationUsage { input_tokens: 0, output_tokens: 1 }),
        ..plain
    };
    assert!(validate_generation(&counted).is_ok());
    assert_ne!(
        GenerationDefect::NoContent.to_string(),
        GenerationDefect::ImplausibleUsage { reason: "why".to_owned() }.to_string()
    );
    assert_eq!(FinishReason::Stop.to_string(), "stop");
    assert_eq!(FinishReason::Length.to_string(), "length");
}

#[test]
fn a_request_keeps_what_it_was_made_of() {
    let request = GenerateTextRequest::continuation("Once").with_parameters(GenerationParameters {
        seed: Some(7),
        ..GenerationParameters::default()
    });
    assert_eq!(request.input.as_str(), "Once");
    assert_eq!(request.parameters.seed, Some(7));
    assert_eq!(EmbedRequest::single("x").inputs, vec!["x"]);
    assert_eq!(TaskId::new("rank").as_str(), "rank");
    assert_eq!(TaskId::new("rank").to_string(), "rank");
}
