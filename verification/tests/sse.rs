use mehoy::backend::sse::SseDecoder;

fn drain(decoder: &mut SseDecoder, chunk: &[u8]) -> Vec<String> {
    decoder.push(chunk).expect("well formed")
}

#[test]
fn a_whole_event_in_one_chunk_is_returned() {
    let mut decoder = SseDecoder::default();
    assert_eq!(drain(&mut decoder, b"data: hello\n\n"), vec!["hello"]);
}

#[test]
fn an_event_split_across_chunks_is_only_returned_once_complete() {
    // The specific failure this guards: emitting truncated JSON because a read
    // ended in the middle of a payload.
    let mut decoder = SseDecoder::default();
    assert!(drain(&mut decoder, b"data: {\"choices\":[{\"te").is_empty());
    assert!(drain(&mut decoder, b"xt\":\"hel").is_empty());
    assert_eq!(
        drain(&mut decoder, b"lo\"}]}\n\n"),
        vec![r#"{"choices":[{"text":"hello"}]}"#]
    );
}

#[test]
fn splitting_at_every_byte_boundary_yields_the_same_events() {
    // Transport may split anywhere, so correctness must not depend on where.
    // Both line endings are covered, and events carry more than one data line,
    // because mishandling a split line ending dispatches an event early, which
    // is invisible when no further line follows in that event.
    let cases: [(&str, Vec<&str>); 4] = [
        (
            "data: one\n\ndata: two\n\ndata: [DONE]\n\n",
            vec!["one", "two", "[DONE]"],
        ),
        (
            "data: one\r\n\r\ndata: two\r\n\r\ndata: [DONE]\r\n\r\n",
            vec!["one", "two", "[DONE]"],
        ),
        (
            "data: a\r\ndata: b\r\n\r\ndata: c\r\ndata: d\r\n\r\n",
            vec!["a\nb", "c\nd"],
        ),
        (
            ": ping\r\nevent: message\r\ndata: a\r\ndata: b\r\n\r\n",
            vec!["a\nb"],
        ),
    ];

    for (text, expected) in cases {
        let stream = text.as_bytes();
        for split in 0..=stream.len() {
            let mut decoder = SseDecoder::default();
            let mut seen = Vec::new();
            seen.extend(drain(&mut decoder, &stream[..split]));
            seen.extend(drain(&mut decoder, &stream[split..]));
            assert_eq!(seen, expected, "split at {split} of {text:?}");
        }
    }
}

#[test]
fn a_line_ending_split_across_chunks_never_dispatches_early() {
    // The specific defect: treating a trailing carriage return as a complete
    // ending turns the following line feed into a blank line, which ends the
    // event before its remaining data lines have been read.
    let mut decoder = SseDecoder::default();
    assert!(drain(&mut decoder, b"data: first\r").is_empty());
    assert_eq!(
        drain(&mut decoder, b"\ndata: second\r\n\r\n"),
        vec!["first\nsecond"]
    );
}

#[test]
fn a_multibyte_character_split_across_chunks_survives() {
    // The decoder holds the incomplete sequence rather than decoding it, so no
    // caller ever receives half of a character.
    let payload = "data: \u{1f600} \u{4f60}\u{597d} \u{e9}\n\n".as_bytes();
    for split in 0..payload.len() {
        let mut decoder = SseDecoder::default();
        let mut seen = Vec::new();
        seen.extend(drain(&mut decoder, &payload[..split]));
        seen.extend(drain(&mut decoder, &payload[split..]));
        assert_eq!(
            seen,
            vec!["\u{1f600} \u{4f60}\u{597d} \u{e9}"],
            "split at {split}"
        );
    }
}

#[test]
fn carriage_return_line_feed_pairs_are_one_ending() {
    let mut decoder = SseDecoder::default();
    assert_eq!(drain(&mut decoder, b"data: hello\r\n\r\n"), vec!["hello"]);
}

#[test]
fn a_carriage_return_split_from_its_line_feed_is_not_two_endings() {
    // Splitting a CRLF pair would otherwise look like a line ending followed by
    // a blank line, dispatching the event one line early.
    let mut decoder = SseDecoder::default();
    assert!(drain(&mut decoder, b"data: hello\r").is_empty());
    assert_eq!(drain(&mut decoder, b"\n\r\n"), vec!["hello"]);
}

#[test]
fn a_bare_carriage_return_ends_a_line() {
    let mut decoder = SseDecoder::default();
    assert_eq!(drain(&mut decoder, b"data: hello\r\rnext"), vec!["hello"]);
}

#[test]
fn comments_and_unrelated_fields_are_ignored() {
    let mut decoder = SseDecoder::default();
    let chunk = b": keep-alive\nevent: message\nid: 7\ndata: payload\nretry: 10\n\n";
    assert_eq!(drain(&mut decoder, chunk), vec!["payload"]);
}

#[test]
fn multiple_data_lines_join_with_a_newline() {
    let mut decoder = SseDecoder::default();
    assert_eq!(drain(&mut decoder, b"data: a\ndata: b\n\n"), vec!["a\nb"]);
}

#[test]
fn only_one_leading_space_is_stripped_from_a_value() {
    let mut decoder = SseDecoder::default();
    assert_eq!(drain(&mut decoder, b"data:  spaced\n\n"), vec![" spaced"]);
}

#[test]
fn a_blank_line_without_data_dispatches_nothing() {
    // Keep-alive traffic must not manufacture an empty event.
    let mut decoder = SseDecoder::default();
    assert!(drain(&mut decoder, b"\n\n: ping\n\n").is_empty());
}

#[test]
fn an_invalid_byte_sequence_is_reported_rather_than_replaced() {
    let mut decoder = SseDecoder::default();
    let error = decoder
        .push(b"data: \xff\xfe\n\n")
        .expect_err("invalid UTF-8 must be refused");
    assert!(error.contains("UTF-8"), "unexpected message: {error}");
}

#[test]
fn an_unterminated_event_is_visible_as_partial() {
    let mut decoder = SseDecoder::default();
    assert!(drain(&mut decoder, b"data: truncated").is_empty());
    assert!(decoder.has_partial_event());
}

#[test]
fn a_fully_consumed_stream_holds_nothing() {
    let mut decoder = SseDecoder::default();
    drain(&mut decoder, b"data: done\n\n");
    assert!(!decoder.has_partial_event());
}

#[test]
fn the_events_do_not_depend_on_how_the_bytes_are_cut() {
    let text = "data: a\r\ndata: b\r\n\r\n: ping\ndata:c\n\ndata: part";
    let stream = text.as_bytes();
    for width in 1..=stream.len() {
        let mut decoder = SseDecoder::default();
        let mut seen = Vec::new();
        for chunk in stream.chunks(width) {
            seen.extend(drain(&mut decoder, chunk));
        }
        assert_eq!(seen, vec!["a\nb", "c"], "cut every {width} bytes");
        assert!(decoder.has_partial_event());
    }
}

#[test]
fn a_refused_line_is_named_with_the_place_of_the_fault() {
    let mut decoder = SseDecoder::default();
    assert_eq!(
        decoder.push(b"data: ok\xff\n\n"),
        Err(
            "a data line was not valid UTF-8: invalid utf-8 sequence of 1 bytes from index 2"
                .to_owned()
        )
    );
}

#[test]
fn a_field_without_a_colon_is_a_name_with_no_value() {
    let mut decoder = SseDecoder::default();
    assert_eq!(drain(&mut decoder, b"data\ndata: x\n\n"), vec!["\nx"]);
}

#[test]
fn any_line_that_is_not_text_is_refused() {
    let lines: [&[u8]; 3] = [b": \xff\n\n", b"event: \xff\n\n", b"\xff\n"];
    for line in lines {
        let mut decoder = SseDecoder::default();
        let error = decoder.push(line).expect_err("invalid UTF-8 must be refused");
        assert!(error.starts_with("a line was not valid UTF-8: "), "{error}");
    }
    let mut decoder = SseDecoder::default();
    assert_eq!(
        decoder.push(b": \xff\n\n"),
        Err("a line was not valid UTF-8: invalid utf-8 sequence of 1 bytes from index 2".to_owned())
    );
    // Text in any language is no fault, on a line of any kind.
    let mut decoder = SseDecoder::default();
    assert_eq!(drain(&mut decoder, ": gr\u{fc}n\nevent: \u{e9}\ndata: \u{2713}\n\n".as_bytes()), vec!["\u{2713}"]);
}
