use mehoy::registry::gguf::{
    dismantle, parse, parse_read, wanted, GgufError, MetadataValue, FIRST_READ, MAX_ARRAY_LEN,
    MAX_HEADER_BYTES, MAX_METADATA_ENTRIES, MAX_RETAINED_ARRAY_LEN, MAX_STRING_BYTES,
    MAX_TENSOR_COUNT,
};

/// Builds container bytes, including deliberately malformed ones.
#[derive(Default)]
struct Builder {
    bytes: Vec<u8>,
}

impl Builder {
    fn new() -> Self {
        Self::default()
    }

    fn raw(mut self, bytes: &[u8]) -> Self {
        self.bytes.extend_from_slice(bytes);
        self
    }

    fn magic(self) -> Self {
        self.raw(b"GGUF")
    }

    fn u32(self, value: u32) -> Self {
        self.raw(&value.to_le_bytes())
    }

    fn u64(self, value: u64) -> Self {
        self.raw(&value.to_le_bytes())
    }

    fn string(self, value: &str) -> Self {
        self.u64(value.len() as u64).raw(value.as_bytes())
    }

    /// A key with a string value.
    fn text_entry(self, key: &str, value: &str) -> Self {
        self.string(key).u32(8).string(value)
    }

    /// A key with a uint32 value.
    fn number_entry(self, key: &str, value: u32) -> Self {
        self.string(key).u32(4).u32(value)
    }

    fn build(self) -> Vec<u8> {
        self.bytes
    }
}

fn minimal() -> Vec<u8> {
    Builder::new()
        .magic()
        .u32(3)
        .u64(0)
        .u64(3)
        .text_entry("general.architecture", "llama")
        .text_entry("general.name", "test model")
        .number_entry("llama.context_length", 4096)
        .build()
}

#[test]
fn parses_a_well_formed_container() {
    let header = parse(minimal().as_slice()).expect("parses");
    assert_eq!(header.version, 3);
    assert_eq!(header.metadata_count, 3);
    assert_eq!(header.architecture(), Some("llama"));
    assert_eq!(header.text("general.name"), Some("test model"));
    assert_eq!(header.architecture_number("context_length"), Some(4096));
}

#[test]
fn a_file_named_gguf_is_not_evidence_that_it_is_gguf() {
    let err = parse(b"this is a text file".as_slice()).expect_err("must be rejected");
    assert!(
        matches!(err, GgufError::NotGguf { .. }),
        "expected NotGguf, got {}", err.to_string()
    );
}

#[test]
fn an_unsupported_version_is_refused_by_name() {
    // Best-effort parsing of an unknown layout produces confident nonsense.
    let bytes = Builder::new().magic().u32(99).u64(0).u64(0).build();
    match parse(bytes.as_slice()).expect_err("must be rejected") {
        GgufError::UnsupportedVersion { version } => assert_eq!(version, 99),
        other => panic!("expected UnsupportedVersion, got {}", other.to_string()),
    }
}

#[test]
fn version_two_is_accepted() {
    let bytes = Builder::new().magic().u32(2).u64(0).u64(0).build();
    assert_eq!(parse(bytes.as_slice()).expect("parses").version, 2);
}

#[test]
fn a_truncated_header_is_rejected() {
    let full = minimal();
    for cut in [4, 8, 12, 20, 30, 45] {
        let err = parse(&full[..cut.min(full.len())]).expect_err("must be rejected");
        assert!(
            matches!(err, GgufError::Truncated { .. } | GgufError::NotGguf { .. }),
            "cutting at {cut} gave {}", err.to_string()
        );
    }
}

#[test]
fn an_implausible_metadata_count_is_refused_before_allocating() {
    let bytes = Builder::new().magic().u32(3).u64(0).u64(u64::MAX).build();
    match parse(bytes.as_slice()).expect_err("must be rejected") {
        GgufError::Implausible { what, .. } => assert_eq!(what, "metadata count"),
        other => panic!("expected Implausible, got {}", other.to_string()),
    }
}

#[test]
fn an_implausible_tensor_count_is_refused() {
    let bytes = Builder::new().magic().u32(3).u64(u64::MAX).u64(0).build();
    match parse(bytes.as_slice()).expect_err("must be rejected") {
        GgufError::Implausible { what, .. } => assert_eq!(what, "tensor count"),
        other => panic!("expected Implausible, got {}", other.to_string()),
    }
}

#[test]
fn an_enormous_string_length_is_refused_rather_than_allocated() {
    // The declared length is far beyond the file. A parser that allocated first
    // would try to reserve terabytes before discovering the truncation.
    let bytes = Builder::new()
        .magic()
        .u32(3)
        .u64(0)
        .u64(1)
        .u64(u64::MAX)
        .build();
    match parse(bytes.as_slice()).expect_err("must be rejected") {
        GgufError::Implausible { what, .. } => assert_eq!(what, "string length"),
        other => panic!("expected Implausible, got {}", other.to_string()),
    }
}

#[test]
fn an_enormous_array_length_is_refused() {
    let bytes = Builder::new()
        .magic()
        .u32(3)
        .u64(0)
        .u64(1)
        .string("tokenizer.ggml.tokens")
        .u32(9)
        .u32(8)
        .u64(u64::MAX)
        .build();
    match parse(bytes.as_slice()).expect_err("must be rejected") {
        GgufError::Implausible { what, .. } => assert_eq!(what, "array length"),
        other => panic!("expected Implausible, got {}", other.to_string()),
    }
}

#[test]
fn an_unknown_value_type_is_reported_rather_than_skipped() {
    let bytes = Builder::new()
        .magic()
        .u32(3)
        .u64(0)
        .u64(1)
        .string("weird")
        .u32(4242)
        .build();
    match parse(bytes.as_slice()).expect_err("must be rejected") {
        GgufError::UnknownValueType { type_id } => assert_eq!(type_id, 4242),
        other => panic!("expected UnknownValueType, got {}", other.to_string()),
    }
}

#[test]
fn the_header_budget_bounds_total_reading() {
    // Many entries, each individually plausible, must still not be able to make
    // the parser read an unbounded amount.
    let mut builder = Builder::new().magic().u32(3).u64(0).u64(100_000);
    for index in 0..100_000u32 {
        builder = builder.text_entry(&format!("key{index}"), &"x".repeat(1024));
    }
    let bytes = builder.build();
    let err = parse(bytes.as_slice()).expect_err("must hit the budget");
    assert!(
        matches!(
            err,
            GgufError::Implausible { .. } | GgufError::Truncated { .. }
        ),
        "expected a bounded refusal, got {}", err.to_string()
    );
}

#[test]
fn a_long_array_is_summarised_rather_than_retained() {
    let count = MAX_RETAINED_ARRAY_LEN + 10;
    let mut builder = Builder::new()
        .magic()
        .u32(3)
        .u64(0)
        .u64(1)
        .string("tokenizer.ggml.tokens")
        .u32(9)
        .u32(8)
        .u64(count);
    for index in 0..count {
        builder = builder.string(&format!("t{index}"));
    }
    let header = parse(builder.build().as_slice()).expect("parses");
    match header.get("tokenizer.ggml.tokens").expect("present") {
        MetadataValue::LargeArray { len, element_type } => {
            assert_eq!(*len, count);
            assert_eq!(*element_type, 8);
        }
        other => panic!("expected a summarised array, got {other:?}"),
    }
}

#[test]
fn a_short_array_is_retained() {
    let bytes = Builder::new()
        .magic()
        .u32(3)
        .u64(0)
        .u64(1)
        .string("small")
        .u32(9)
        .u32(4)
        .u64(2)
        .u32(7)
        .u32(9)
        .build();
    let header = parse(bytes.as_slice()).expect("parses");
    assert_eq!(
        header.get("small"),
        Some(&MetadataValue::Array(vec![
            MetadataValue::U32(7),
            MetadataValue::U32(9)
        ]))
    );
}

#[test]
fn architecture_qualified_keys_need_the_architecture() {
    // Without general.architecture there is no way to know which prefix the
    // dimension keys use, and guessing one would be wrong for most models.
    let bytes = Builder::new()
        .magic()
        .u32(3)
        .u64(0)
        .u64(1)
        .number_entry("llama.context_length", 2048)
        .build();
    let header = parse(bytes.as_slice()).expect("parses");
    assert_eq!(header.architecture(), None);
    assert_eq!(header.architecture_number("context_length"), None);
    // The raw key is still available.
    assert_eq!(header.number("llama.context_length"), Some(2048));
}

fn header(metadata_count: u64) -> Builder {
    Builder::new().magic().u32(3).u64(0).u64(metadata_count)
}

#[test]
fn what_follows_the_header_is_never_read() {
    let mut bytes = minimal();
    let plain = parse(bytes.as_slice()).expect("parses");
    bytes.extend_from_slice(&[0xff; 64]);
    assert_eq!(parse(bytes.as_slice()).expect("parses"), plain);
}

#[test]
fn every_kind_of_value_is_read() {
    let bytes = header(13)
        .string("a").u32(0).raw(&[200])
        .string("b").u32(1).raw(&[0xff])
        .string("c").u32(2).raw(&[1, 2])
        .string("d").u32(3).raw(&[0xfe, 0xff])
        .string("e").u32(4).u32(7)
        .string("f").u32(5).raw(&[0xfd, 0xff, 0xff, 0xff])
        .string("g").u32(6).u32(1.5f32.to_bits())
        .string("h").u32(7).raw(&[1])
        .string("i").u32(8).string("text")
        .string("j").u32(10).u64(u64::MAX)
        .string("k").u32(11).u64(u64::MAX)
        .string("l").u32(12).u64(2.5f64.to_bits())
        .string("m").u32(7).raw(&[0])
        .build();
    let header = parse(bytes.as_slice()).expect("parses");
    let value = |key: &str| header.get(key).expect("present");
    assert_eq!(value("a"), &MetadataValue::U8(200));
    assert_eq!(value("b"), &MetadataValue::I8(-1));
    assert_eq!(value("c"), &MetadataValue::U16(513));
    assert_eq!(value("d"), &MetadataValue::I16(-2));
    assert_eq!(value("e"), &MetadataValue::U32(7));
    assert_eq!(value("f"), &MetadataValue::I32(-3));
    assert_eq!(value("g"), &MetadataValue::F32(1.5f32.to_bits()));
    assert_eq!(value("h"), &MetadataValue::Bool(true));
    assert_eq!(value("i"), &MetadataValue::String("text".to_owned()));
    assert_eq!(value("j"), &MetadataValue::U64(u64::MAX));
    assert_eq!(value("k"), &MetadataValue::I64(-1));
    assert_eq!(value("l"), &MetadataValue::F64(2.5f64.to_bits()));
    assert_eq!(value("m"), &MetadataValue::Bool(false));
    assert_eq!(header.number("a"), Some(200));
    assert_eq!(header.number("c"), Some(513));
    assert_eq!(header.number("b"), None);
    assert_eq!(header.text("e"), None);
    assert_eq!(value("i").as_str(), Some("text"));
    assert_eq!(value("j").as_u64(), Some(u64::MAX));
}

#[test]
fn a_signed_number_counts_only_where_it_is_not_negative() {
    let number = |bytes: &[u8], kind: u32| {
        let bytes = header(1).string("n").u32(kind).raw(bytes).build();
        parse(bytes.as_slice()).expect("parses").number("n")
    };
    assert_eq!(number(&[5], 1), Some(5));
    assert_eq!(number(&[0xfb], 1), None);
    assert_eq!(number(&9i64.to_le_bytes(), 11), Some(9));
    assert_eq!(number(&(-9i64).to_le_bytes(), 11), None);
}

#[test]
fn the_last_value_of_a_repeated_key_wins() {
    let bytes = header(3)
        .number_entry("k", 1)
        .number_entry("other", 5)
        .number_entry("k", 2)
        .build();
    let header = parse(bytes.as_slice()).expect("parses");
    assert_eq!(header.number("k"), Some(2));
    assert_eq!(header.metadata.len(), 2);
    assert_eq!(header.metadata_count, 3);
}

#[test]
fn an_empty_container_has_no_entries() {
    let header = parse(header(0).build().as_slice()).expect("parses");
    assert_eq!(header.tensor_count, 0);
    assert!(header.metadata.is_empty());
    assert_eq!(header.get("anything"), None);
}

#[test]
fn text_that_is_not_text_is_refused_by_what_it_was_to_be() {
    let bytes = header(1).string("k").u32(8).u64(1).raw(&[0xff]).build();
    match parse(bytes.as_slice()).expect_err("must be rejected") {
        GgufError::InvalidText { key } => assert_eq!(key, "string"),
        other => panic!("expected InvalidText, got {}", other.to_string()),
    }
    let bytes = header(1).u64(1).raw(&[0xff]).build();
    assert_eq!(
        parse(bytes.as_slice()).expect_err("must be rejected").to_string(),
        "GGUF metadata key \"metadata key\" is not valid UTF-8"
    );
}

#[test]
fn arrays_up_to_the_bound_are_kept_and_longer_ones_summarised() {
    let array = |len: u64| {
        let mut builder = header(1).string("a").u32(9).u32(0).u64(len);
        for _ in 0..len {
            builder = builder.raw(&[7]);
        }
        parse(builder.build().as_slice()).expect("parses")
    };
    match array(MAX_RETAINED_ARRAY_LEN).get("a") {
        Some(MetadataValue::Array(items)) => {
            assert_eq!(items.len() as u64, MAX_RETAINED_ARRAY_LEN);
        }
        other => panic!("expected the array, got {other:?}"),
    }
    assert_eq!(
        array(MAX_RETAINED_ARRAY_LEN + 1).get("a"),
        Some(&MetadataValue::LargeArray { element_type: 0, len: MAX_RETAINED_ARRAY_LEN + 1 })
    );
}

#[test]
fn limits_are_part_of_what_is_refused() {
    let refused = |bytes: Vec<u8>| match parse(bytes.as_slice()).expect_err("refused") {
        GgufError::Implausible { what, value, limit } => (what, value, limit),
        other => panic!("expected Implausible, got {}", other.to_string()),
    };
    assert_eq!(
        refused(header(MAX_METADATA_ENTRIES + 1).build()),
        ("metadata count", MAX_METADATA_ENTRIES + 1, MAX_METADATA_ENTRIES)
    );
    assert_eq!(
        refused(Builder::new().magic().u32(3).u64(MAX_TENSOR_COUNT + 1).u64(0).build()),
        ("tensor count", MAX_TENSOR_COUNT + 1, MAX_TENSOR_COUNT)
    );
    assert_eq!(
        refused(header(1).u64(MAX_STRING_BYTES + 1).build()),
        ("string length", MAX_STRING_BYTES + 1, MAX_STRING_BYTES)
    );
    assert_eq!(
        refused(header(1).string("a").u32(9).u32(0).u64(MAX_ARRAY_LEN + 1).build()),
        ("array length", MAX_ARRAY_LEN + 1, MAX_ARRAY_LEN)
    );
    assert_eq!(MAX_HEADER_BYTES, 64 * 1024 * 1024);
}

#[test]
fn a_read_that_fails_is_told_from_a_file_that_ends() {
    let cut = &minimal()[..30];
    assert!(matches!(
        parse_read(cut, None).expect_err("truncated"),
        GgufError::Truncated { .. }
    ));
    match parse_read(cut, Some("disk error".to_owned())).expect_err("failed") {
        GgufError::Io(reason) => assert_eq!(reason, "disk error"),
        other => panic!("expected Io, got {}", other.to_string()),
    }
    // A failure beyond the header is never met.
    assert!(parse_read(minimal().as_slice(), Some("disk error".to_owned())).is_ok());
}

#[test]
fn refusals_are_put_in_words() {
    let words = |bytes: Vec<u8>| parse(bytes.as_slice()).expect_err("refused").to_string();
    assert_eq!(
        words(b"zi\"\xff".to_vec()),
        "not a GGUF container: expected magic \"GGUF\", found \"zi\\\"\u{fffd}\""
    );
    assert_eq!(words(minimal()[..20].to_vec()), "GGUF file ended while reading metadata count");
    let version = words(Builder::new().magic().u32(99).u64(0).u64(0).build());
    assert!(version.contains("99"), "{version}");
    let kind = words(header(1).string("k").u32(4242).build());
    assert!(kind.contains("4242"), "{kind}");
    let count = words(header(u64::MAX).build());
    assert!(count.contains("18446744073709551615"), "{count}");
    assert!(GgufError::Io("why".to_owned()).to_string().contains("why"));
}

#[test]
fn entries_stand_in_the_order_of_their_keys() {
    let keys = |bytes: &[u8]| -> Vec<String> {
        let header = parse(bytes).expect("parses");
        header.metadata.iter().map(|entry| entry.key.clone()).collect()
    };
    let bytes = header(6)
        .number_entry("b", 1)
        .number_entry("\u{e9}", 2)
        .number_entry("a.b", 3)
        .number_entry("", 4)
        .number_entry("a", 5)
        .number_entry("Z", 6)
        .build();
    assert_eq!(keys(&bytes), vec!["", "Z", "a", "a.b", "b", "\u{e9}"]);

    // A container that differs only in the order of its entries gives the same header.
    let other = header(6)
        .number_entry("Z", 6)
        .number_entry("a", 5)
        .number_entry("b", 1)
        .number_entry("a.b", 3)
        .number_entry("\u{e9}", 2)
        .number_entry("", 4)
        .build();
    assert_eq!(parse(&bytes).expect("parses"), parse(&other).expect("parses"));

    let mut many = header(300);
    for i in 0..300u32 {
        many = many.number_entry(&format!("{:03}", (i * 7) % 300), i);
    }
    let expected: Vec<String> = (0..300).map(|i| format!("{i:03}")).collect();
    assert_eq!(keys(&many.build()), expected);
}

/// A container whose one value is an empty array inside `levels - 1` others.
fn nested(levels: u64) -> Vec<u8> {
    let mut bytes = header(1).string("k").u32(9);
    for _ in 1..levels {
        bytes = bytes.u32(9).u64(1);
    }
    bytes.u32(0).u64(0).build()
}

fn depth_of(value: &MetadataValue) -> u64 {
    let mut levels = 1;
    let mut value = value;
    while let MetadataValue::Array(items) = value {
        match items.first() {
            Some(inner) => value = inner,
            None => break,
        }
        levels += 1;
    }
    levels
}

#[test]
fn arrays_nest_as_deep_as_the_header_may_reach() {
    for levels in [1, 2, 128, 129, 1_000_000] {
        let mut header = parse(nested(levels).as_slice()).expect("parses");
        assert_eq!(depth_of(header.get("k").expect("present")), levels);
        header.dismantle();
        assert!(header.get("k").is_none());
        assert_eq!((header.version, header.metadata_count), (3, 1));
    }
    let deepest = parse(nested(129).as_slice()).expect("parses");
    assert_eq!(deepest.clone(), deepest);

    // What cannot be read to its end is refused, however deep that end is.
    let mut cut = nested(1_000_000);
    cut.pop();
    assert!(matches!(parse(cut.as_slice()), Err(GgufError::Truncated { .. })));

    // A value that a later one of its key replaces may be as deep.
    let mut replaced = header(2).string("k").u32(9);
    for _ in 1..1_000_000 {
        replaced = replaced.u32(9).u64(1);
    }
    let replaced = replaced.u32(0).u64(0).number_entry("k", 5).build();
    let header = parse(replaced.as_slice()).expect("parses");
    assert_eq!(header.get("k"), Some(&MetadataValue::U32(5)));
}

#[test]
fn values_are_taken_apart_level_by_level() {
    let mut value = MetadataValue::Array(Vec::new());
    for _ in 0..1_000_000 {
        value = MetadataValue::Array(vec![value, MetadataValue::U8(1)]);
    }
    let mut values = vec![MetadataValue::Bool(true), value];
    dismantle(&mut values);
    assert!(values.is_empty());
}

#[test]
fn every_cut_of_a_container_is_truncated() {
    let whole = minimal();
    assert!(parse(whole.as_slice()).is_ok());
    for cut in 0..whole.len() {
        assert!(
            matches!(parse(&whole[..cut]), Err(GgufError::Truncated { .. })),
            "cutting at {cut}"
        );
    }
}

#[test]
fn no_more_is_wanted_than_settles_what_a_header_means() {
    assert_eq!(wanted(b""), Some(FIRST_READ));
    assert_eq!(wanted(b"GGUF"), Some(FIRST_READ));
    assert_eq!(wanted(b"none"), None);
    assert_eq!(wanted(minimal().as_slice()), None);

    let long = header(1).text_entry("k", &"x".repeat(600_000)).build();
    let mut asked = Vec::new();
    let mut read = 0;
    while let Some(more) = wanted(&long[..read]) {
        asked.push(more);
        read = usize::try_from(more).expect("fits").min(long.len());
    }
    assert_eq!(asked, [FIRST_READ, 4 * FIRST_READ, 16 * FIRST_READ]);
    assert_eq!(read, long.len());
}
