//! A GGUF header and metadata parser.
//!
//! The runtime reads model containers itself instead of asking a backend what a
//! file is. A container is untrusted binary data full of counts and lengths, so
//! the magic is checked, only known versions are read, every count and length is
//! bounded before it is used, and a total budget bounds how much of the file the
//! header may take. Arrays may nest as deep as the budget allows: they are read, and
//! taken apart, without a call for each level. Tensor data is never touched
//! ([`later_bytes_are_never_read`], [`only_the_budget_is_read`]).
//!
//! [`parsed`] says what every byte sequence means; [`parse`] computes it.

use vstd::hash_map::*;
use vstd::prelude::*;
use vstd::string::*;
use vstd::utf8::*;

use crate::registry::order::{stands_before, text_is_ordered, text_precedes};
use crate::text::{
    debug_text, decimal, decimal_u64, decode_text, lossy_text, opt_text, quoted_text,
    replaced_text, same_text, same_words, words_stay,
};

verus! {

/// Largest number of metadata entries accepted.
pub const MAX_METADATA_ENTRIES: u64 = 0x10_0000;

/// Largest tensor count accepted.
pub const MAX_TENSOR_COUNT: u64 = 0x100_0000;

/// Largest single string accepted, which comfortably covers a chat template.
pub const MAX_STRING_BYTES: u64 = 0x100_0000;

/// Largest array length accepted.
pub const MAX_ARRAY_LEN: u64 = 0x100_0000;

/// Total bytes the header and metadata may consume.
pub const MAX_HEADER_BYTES: u64 = 0x400_0000;

/// Arrays longer than this are summarised rather than retained, so a tokenizer
/// vocabulary does not become several hundred thousand strings in memory.
pub const MAX_RETAINED_ARRAY_LEN: u64 = 64;

/// `GGUF`, the first four bytes of every container.
pub open spec fn magic() -> Seq<u8> {
    seq![0x47u8, 0x47, 0x55, 0x46]
}

/// A layout change is where best-effort reading produces confident nonsense, so
/// any other version is refused.
pub open spec fn supported(version: u32) -> bool {
    version == 2 || version == 3
}

/// A typed metadata value. Floating-point values are held by their bits.
#[derive(Debug, PartialEq)]
pub enum MetadataValue {
    U8(u8),
    I8(i8),
    U16(u16),
    I16(i16),
    U32(u32),
    I32(i32),
    U64(u64),
    I64(i64),
    F32(u32),
    F64(u64),
    Bool(bool),
    String(String),
    Array(Vec<MetadataValue>),
    /// An array too long to retain, recorded by shape instead of contents.
    LargeArray { element_type: u32, len: u64 },
}

/// What a [`MetadataValue`] holds.
pub enum Value {
    U8(u8),
    I8(i8),
    U16(u16),
    I16(i16),
    U32(u32),
    I32(i32),
    U64(u64),
    I64(i64),
    F32(u32),
    F64(u64),
    Bool(bool),
    Text(Seq<char>),
    Array(Seq<Value>),
    LargeArray { element_type: u32, len: u64 },
}

impl MetadataValue {
    pub open spec fn view(&self) -> Value
        decreases self,
    {
        match self {
            MetadataValue::U8(v) => Value::U8(*v),
            MetadataValue::I8(v) => Value::I8(*v),
            MetadataValue::U16(v) => Value::U16(*v),
            MetadataValue::I16(v) => Value::I16(*v),
            MetadataValue::U32(v) => Value::U32(*v),
            MetadataValue::I32(v) => Value::I32(*v),
            MetadataValue::U64(v) => Value::U64(*v),
            MetadataValue::I64(v) => Value::I64(*v),
            MetadataValue::F32(v) => Value::F32(*v),
            MetadataValue::F64(v) => Value::F64(*v),
            MetadataValue::Bool(v) => Value::Bool(*v),
            MetadataValue::String(v) => Value::Text(v@),
            MetadataValue::Array(items) => Value::Array(
                Seq::new(
                    items@.len(),
                    |i: int|
                        if 0 <= i < items@.len() {
                            items@[i].view()
                        } else {
                            arbitrary()
                        },
                ),
            ),
            MetadataValue::LargeArray { element_type, len } => Value::LargeArray {
                element_type: *element_type,
                len: *len,
            },
        }
    }
}

impl Clone for MetadataValue {
    fn clone(&self) -> (copy: MetadataValue)
        ensures
            copy@ == self@,
        decreases self,
    {
        match self {
            MetadataValue::U8(v) => MetadataValue::U8(*v),
            MetadataValue::I8(v) => MetadataValue::I8(*v),
            MetadataValue::U16(v) => MetadataValue::U16(*v),
            MetadataValue::I16(v) => MetadataValue::I16(*v),
            MetadataValue::U32(v) => MetadataValue::U32(*v),
            MetadataValue::I32(v) => MetadataValue::I32(*v),
            MetadataValue::U64(v) => MetadataValue::U64(*v),
            MetadataValue::I64(v) => MetadataValue::I64(*v),
            MetadataValue::F32(v) => MetadataValue::F32(*v),
            MetadataValue::F64(v) => MetadataValue::F64(*v),
            MetadataValue::Bool(v) => MetadataValue::Bool(*v),
            MetadataValue::String(v) => MetadataValue::String(v.clone()),
            MetadataValue::Array(items) => {
                let mut copies: Vec<MetadataValue> = Vec::new();
                let mut i: usize = 0;
                while i < items.len()
                    invariant
                        i <= items@.len(),
                        copies@.len() == i,
                        *self == MetadataValue::Array(*items),
                        forall|j: int| 0 <= j < i ==> (#[trigger] copies@[j])@ == items@[j]@,
                    decreases items@.len() - i,
                {
                    proof {
                        assert(decreases_to!(items@ => items@[i as int]));
                        assert(decreases_to!(*items => items@));
                        assert(decreases_to!(*self => self->Array_0));
                    }
                    let copy = items[i].clone();
                    copies.push(copy);
                    i = i + 1;
                }
                let copy = MetadataValue::Array(copies);
                assert(copy@->Array_0 =~= self@->Array_0);
                copy
            },
            MetadataValue::LargeArray { element_type, len } => MetadataValue::LargeArray {
                element_type: *element_type,
                len: *len,
            },
        }
    }
}

/// The unsigned integer a value holds, when it is an integral type that fits.
pub open spec fn as_unsigned(value: Value) -> Option<u64> {
    match value {
        Value::U8(v) => Some(v as u64),
        Value::U16(v) => Some(v as u64),
        Value::U32(v) => Some(v as u64),
        Value::U64(v) => Some(v),
        Value::I8(v) => if v >= 0 { Some(v as u64) } else { None },
        Value::I16(v) => if v >= 0 { Some(v as u64) } else { None },
        Value::I32(v) => if v >= 0 { Some(v as u64) } else { None },
        Value::I64(v) => if v >= 0 { Some(v as u64) } else { None },
        _ => None,
    }
}

/// Whether a value counts as a number, or as none: an integer that is not negative
/// counts as itself, and nothing else does.
pub open spec fn counts_as(value: MetadataValue, number: Option<u64>) -> bool {
    match value {
        MetadataValue::U8(v) => number is Some && number->0 == v,
        MetadataValue::U16(v) => number is Some && number->0 == v,
        MetadataValue::U32(v) => number is Some && number->0 == v,
        MetadataValue::U64(v) => number is Some && number->0 == v,
        MetadataValue::I8(v) => if v < 0 { number is None } else { number is Some && number->0
            == v },
        MetadataValue::I16(v) => if v < 0 { number is None } else { number is Some && number->0
            == v },
        MetadataValue::I32(v) => if v < 0 { number is None } else { number is Some && number->0
            == v },
        MetadataValue::I64(v) => if v < 0 { number is None } else { number is Some && number->0
            == v },
        _ => number is None,
    }
}

impl MetadataValue {
    /// The value as a string, when it is one.
    pub fn as_str(&self) -> (text: Option<&str>)
        ensures
            match self@ {
                Value::Text(t) => text is Some && text->0@ == t,
                _ => text is None,
            },
            match *self {
                MetadataValue::String(t) => text is Some && text->0@ == t@,
                _ => text is None,
            },
    {
        match self {
            MetadataValue::String(value) => Some(value.as_str()),
            _ => None,
        }
    }

    /// The value as an unsigned integer, when it is an integral type that fits.
    pub fn as_u64(&self) -> (number: Option<u64>)
        ensures
            number == as_unsigned(self@),
            counts_as(*self, number),
    {
        match self {
            MetadataValue::U8(v) => Some(*v as u64),
            MetadataValue::U16(v) => Some(*v as u64),
            MetadataValue::U32(v) => Some(*v as u64),
            MetadataValue::U64(v) => Some(*v),
            MetadataValue::I8(v) => if *v >= 0 { Some(*v as u64) } else { None },
            MetadataValue::I16(v) => if *v >= 0 { Some(*v as u64) } else { None },
            MetadataValue::I32(v) => if *v >= 0 { Some(*v as u64) } else { None },
            MetadataValue::I64(v) => if *v >= 0 { Some(*v as u64) } else { None },
            _ => None,
        }
    }
}

/// Why a container could not be read as GGUF.
#[derive(Debug)]
pub enum GgufError {
    /// The file does not begin with the GGUF magic.
    NotGguf { found: [u8; 4] },
    /// The container declares a version this parser does not implement.
    UnsupportedVersion { version: u32 },
    /// A declared count or length exceeds what this parser will accept.
    Implausible { what: &'static str, value: u64, limit: u64 },
    /// The file ended before the declared structure did.
    Truncated { what: &'static str },
    /// An offset or length calculation overflowed.
    Overflow { what: &'static str },
    /// A metadata entry declared a type this parser does not know.
    UnknownValueType { type_id: u32 },
    /// A string was not valid UTF-8.
    InvalidText { key: String },
    /// Reading the file failed.
    Io(String),
}

/// What a [`GgufError`] says.
pub enum Fault {
    NotGguf { found: Seq<u8> },
    UnsupportedVersion { version: u32 },
    Implausible { what: Seq<char>, value: int, limit: int },
    Truncated { what: Seq<char> },
    Overflow { what: Seq<char> },
    UnknownValueType { type_id: u32 },
    InvalidText { key: Seq<char> },
    Io { reason: Seq<char> },
}

impl GgufError {
    pub open spec fn view(&self) -> Fault {
        match self {
            GgufError::NotGguf { found } => Fault::NotGguf { found: found@ },
            GgufError::UnsupportedVersion { version } => Fault::UnsupportedVersion {
                version: *version,
            },
            GgufError::Implausible { what, value, limit } => Fault::Implausible {
                what: what@,
                value: *value as int,
                limit: *limit as int,
            },
            GgufError::Truncated { what } => Fault::Truncated { what: what@ },
            GgufError::Overflow { what } => Fault::Overflow { what: what@ },
            GgufError::UnknownValueType { type_id } => Fault::UnknownValueType {
                type_id: *type_id,
            },
            GgufError::InvalidText { key } => Fault::InvalidText { key: key@ },
            GgufError::Io(reason) => Fault::Io { reason: reason@ },
        }
    }
}

/// The message for each fault.
pub open spec fn fault_message(fault: Fault) -> Seq<char> {
    match fault {
        Fault::NotGguf { found } => "not a GGUF container: expected magic \"GGUF\", found "@
            + quoted_text(replaced_text(found)),
        Fault::UnsupportedVersion { version } => "GGUF version "@ + decimal(version as nat)
            + " is not supported (supported: [2, 3])"@,
        Fault::Implausible { what, value, limit } => "GGUF "@ + what + " of "@ + decimal(
            value as nat,
        ) + " exceeds the limit of "@ + decimal(limit as nat),
        Fault::Truncated { what } => "GGUF file ended while reading "@ + what,
        Fault::Overflow { what } => "GGUF "@ + what + " overflowed"@,
        Fault::UnknownValueType { type_id } => "GGUF metadata value type "@ + decimal(
            type_id as nat,
        ) + " is not recognised"@,
        Fault::InvalidText { key } => "GGUF metadata key "@ + quoted_text(key)
            + " is not valid UTF-8"@,
        Fault::Io { reason } => "cannot read GGUF container: "@ + reason,
    }
}

impl GgufError {
    /// The error in words.
    pub fn to_string(&self) -> (message: String)
        ensures
            message@ == fault_message(self@),
    {
        match self {
            GgufError::NotGguf { found } => {
                let mut m = "not a GGUF container: expected magic \"GGUF\", found ".to_owned();
                let shown = lossy_text(found.as_slice());
                m.append(debug_text(shown.as_str()).as_str());
                m
            },
            GgufError::UnsupportedVersion { version } => {
                let mut m = "GGUF version ".to_owned();
                m.append(decimal_u64(*version as u64).as_str());
                m.append(" is not supported (supported: [2, 3])");
                m
            },
            GgufError::Implausible { what, value, limit } => {
                let mut m = "GGUF ".to_owned();
                m.append(what);
                m.append(" of ");
                m.append(decimal_u64(*value).as_str());
                m.append(" exceeds the limit of ");
                m.append(decimal_u64(*limit).as_str());
                m
            },
            GgufError::Truncated { what } => {
                let mut m = "GGUF file ended while reading ".to_owned();
                m.append(what);
                m
            },
            GgufError::Overflow { what } => {
                let mut m = "GGUF ".to_owned();
                m.append(what);
                m.append(" overflowed");
                m
            },
            GgufError::UnknownValueType { type_id } => {
                let mut m = "GGUF metadata value type ".to_owned();
                m.append(decimal_u64(*type_id as u64).as_str());
                m.append(" is not recognised");
                m
            },
            GgufError::InvalidText { key } => {
                let mut m = "GGUF metadata key ".to_owned();
                m.append(debug_text(key.as_str()).as_str());
                m.append(" is not valid UTF-8");
                m
            },
            GgufError::Io(reason) => {
                let mut m = "cannot read GGUF container: ".to_owned();
                m.append(reason.as_str());
                m
            },
        }
    }
}

// ---------------------------------------------------------------------------
// What a byte sequence means.

/// A little-endian number.
pub open spec fn le_value(bytes: Seq<u8>) -> int
    decreases bytes.len(),
{
    if bytes.len() == 0 {
        0
    } else {
        bytes[0] + 256 * le_value(bytes.drop_first())
    }
}

/// A number of `span` values read as two's complement.
pub open spec fn signed(value: int, span: int) -> int {
    if value < span / 2 {
        value
    } else {
        value - span
    }
}

/// The `n` bytes at `at`. What the budget does not cover is refused before the
/// file is asked for it.
pub open spec fn chunk(bytes: Seq<u8>, at: int, n: int, budget_for: Seq<char>, what: Seq<char>) -> Result<
    (Seq<u8>, int),
    Fault,
> {
    if n > MAX_HEADER_BYTES - at {
        Err(Fault::Implausible { what: budget_for, value: n, limit: MAX_HEADER_BYTES - at })
    } else if at + n > bytes.len() {
        Err(Fault::Truncated { what })
    } else {
        Ok((bytes.subrange(at, at + n), at + n))
    }
}

/// The little-endian number of `n` bytes at `at`.
pub open spec fn number_at(bytes: Seq<u8>, at: int, n: int, what: Seq<char>) -> Result<
    (int, int),
    Fault,
> {
    match chunk(bytes, at, n, what, what) {
        Ok((raw, next)) => Ok((le_value(raw), next)),
        Err(fault) => Err(fault),
    }
}

/// A length-prefixed string at `at`.
pub open spec fn string_at(bytes: Seq<u8>, at: int, what: Seq<char>) -> Result<
    (Seq<char>, int),
    Fault,
> {
    match number_at(bytes, at, 8, what) {
        Err(fault) => Err(fault),
        Ok((len, from)) => if len > MAX_STRING_BYTES {
            Err(
                Fault::Implausible {
                    what: "string length"@,
                    value: len,
                    limit: MAX_STRING_BYTES as int,
                },
            )
        } else {
            match chunk(bytes, from, len, "string contents"@, what) {
                Err(fault) => Err(fault),
                Ok((raw, next)) => if valid_utf8(raw) {
                    Ok((decode_utf8(raw), next))
                } else {
                    Err(Fault::InvalidText { key: what })
                },
            }
        },
    }
}

/// A value made of a number of `n` bytes.
pub open spec fn scalar_at(
    bytes: Seq<u8>,
    at: int,
    n: int,
    what: Seq<char>,
    make: spec_fn(int) -> Value,
) -> Result<(Value, int), Fault> {
    match number_at(bytes, at, n, what) {
        Ok((v, next)) => Ok((make(v), next)),
        Err(fault) => Err(fault),
    }
}

/// A value of the given type at `at`.
pub open spec fn value_at(bytes: Seq<u8>, at: int, type_id: u32) -> Result<(Value, int), Fault>
    decreases MAX_HEADER_BYTES - at, 0int, 0int,
{
    if type_id == 0 {
        scalar_at(bytes, at, 1, "uint8"@, |v: int| Value::U8(v as u8))
    } else if type_id == 1 {
        scalar_at(bytes, at, 1, "int8"@, |v: int| Value::I8(signed(v, 0x100) as i8))
    } else if type_id == 2 {
        scalar_at(bytes, at, 2, "uint16"@, |v: int| Value::U16(v as u16))
    } else if type_id == 3 {
        scalar_at(bytes, at, 2, "int16"@, |v: int| Value::I16(signed(v, 0x1_0000) as i16))
    } else if type_id == 4 {
        scalar_at(bytes, at, 4, "uint32"@, |v: int| Value::U32(v as u32))
    } else if type_id == 5 {
        scalar_at(bytes, at, 4, "int32"@, |v: int| Value::I32(signed(v, 0x1_0000_0000) as i32))
    } else if type_id == 6 {
        scalar_at(bytes, at, 4, "float32"@, |v: int| Value::F32(v as u32))
    } else if type_id == 7 {
        scalar_at(bytes, at, 1, "bool"@, |v: int| Value::Bool(v != 0))
    } else if type_id == 8 {
        match string_at(bytes, at, "string"@) {
            Ok((text, next)) => Ok((Value::Text(text), next)),
            Err(fault) => Err(fault),
        }
    } else if type_id == 9 {
        match number_at(bytes, at, 4, "array element type"@) {
            Err(fault) => Err(fault),
            Ok((element_type, middle)) => match number_at(bytes, middle, 8, "array length"@) {
                Err(fault) => Err(fault),
                Ok((len, from)) => if len > MAX_ARRAY_LEN {
                    Err(
                        Fault::Implausible {
                            what: "array length"@,
                            value: len,
                            limit: MAX_ARRAY_LEN as int,
                        },
                    )
                } else {
                    match elements_at(bytes, from, element_type as u32, len as nat) {
                        Err(fault) => Err(fault),
                        Ok((items, next)) => Ok(
                            (array_value(element_type as u32, len, items), next),
                        ),
                    }
                },
            },
        }
    } else if type_id == 10 {
        scalar_at(bytes, at, 8, "uint64"@, |v: int| Value::U64(v as u64))
    } else if type_id == 11 {
        scalar_at(
            bytes,
            at,
            8,
            "int64"@,
            |v: int| Value::I64(signed(v, 0x1_0000_0000_0000_0000) as i64),
        )
    } else if type_id == 12 {
        scalar_at(bytes, at, 8, "float64"@, |v: int| Value::F64(v as u64))
    } else {
        Err(Fault::UnknownValueType { type_id })
    }
}

/// What is kept of an array: its elements when it is short, else its shape.
pub open spec fn array_value(element_type: u32, len: int, items: Seq<Value>) -> Value {
    if len <= MAX_RETAINED_ARRAY_LEN {
        Value::Array(items)
    } else {
        Value::LargeArray { element_type, len: len as u64 }
    }
}

/// `count` values of one type, one after another. (A value never ends before it
/// starts, so the last case does not arise; it makes the recursion visibly finite.)
pub open spec fn elements_at(bytes: Seq<u8>, at: int, type_id: u32, count: nat) -> Result<
    (Seq<Value>, int),
    Fault,
>
    decreases MAX_HEADER_BYTES - at, 1int, count,
{
    if count == 0 {
        Ok((Seq::empty(), at))
    } else {
        match value_at(bytes, at, type_id) {
            Err(fault) => Err(fault),
            Ok((first, next)) => if at <= next <= MAX_HEADER_BYTES {
                match elements_at(bytes, next, type_id, (count - 1) as nat) {
                    Err(fault) => Err(fault),
                    Ok((rest, end)) => Ok((seq![first] + rest, end)),
                }
            } else {
                Err(Fault::Overflow { what: Seq::empty() })
            },
        }
    }
}

/// A metadata entry: its key and its value.
pub type Pair = (Seq<char>, Value);

/// `count` metadata entries, in file order.
pub open spec fn entries_at(bytes: Seq<u8>, at: int, count: nat) -> Result<
    (Seq<Pair>, int),
    Fault,
>
    decreases count,
{
    if count == 0 {
        Ok((Seq::empty(), at))
    } else {
        match entry_at(bytes, at) {
            Err(fault) => Err(fault),
            Ok((first, next)) => match entries_at(bytes, next, (count - 1) as nat) {
                Err(fault) => Err(fault),
                Ok((rest, end)) => Ok((seq![first] + rest, end)),
            },
        }
    }
}

/// One metadata entry: a key, a type, and a value of that type.
pub open spec fn entry_at(bytes: Seq<u8>, at: int) -> Result<(Pair, int), Fault> {
    match string_at(bytes, at, "metadata key"@) {
        Err(fault) => Err(fault),
        Ok((key, typed)) => match number_at(bytes, typed, 4, "metadata value type"@) {
            Err(fault) => Err(fault),
            Ok((type_id, from)) => match value_at(bytes, from, type_id as u32) {
                Err(fault) => Err(fault),
                Ok((value, next)) => Ok(((key, value), next)),
            },
        },
    }
}

/// Where a key first stands in a list of entries, or the length.
pub open spec fn position_of(entries: Seq<Pair>, key: Seq<char>) -> int
    decreases entries.len(),
{
    if entries.len() == 0 || entries[0].0 == key {
        0
    } else {
        1 + position_of(entries.drop_first(), key)
    }
}

/// Adds an entry, replacing the value of a key that is already there.
pub open spec fn inserted(entries: Seq<Pair>, entry: Pair) -> Seq<Pair> {
    let at = position_of(entries, entry.0);
    if at < entries.len() {
        entries.update(at, entry)
    } else {
        entries.push(entry)
    }
}

/// The entries of a file with each key once, in the order in which the keys first
/// come, holding the last value given for each.
pub open spec fn merged(entries: Seq<Pair>) -> Seq<Pair>
    decreases entries.len(),
{
    if entries.len() == 0 {
        Seq::empty()
    } else {
        inserted(merged(entries.drop_last()), entries.last())
    }
}

/// The last value given for a key.
pub open spec fn lookup(entries: Seq<Pair>, key: Seq<char>) -> Option<Value>
    decreases entries.len(),
{
    if entries.len() == 0 {
        None
    } else if entries.last().0 == key {
        Some(entries.last().1)
    } else {
        lookup(entries.drop_last(), key)
    }
}

/// Whether entries stand in the order of their keys, each key once.
pub open spec fn keys_ascend(entries: Seq<Pair>) -> bool {
    forall|i: int, j: int|
        0 <= i < j < entries.len() ==> text_precedes(
            (#[trigger] entries[i]).0,
            (#[trigger] entries[j]).0,
        )
}

/// Whether a table holds what a file's entries say: the last value given for each
/// key, in the order of the keys. No other table does
/// ([`the_order_of_entries_makes_no_difference`]).
pub open spec fn tabulates(table: Seq<Pair>, entries: Seq<Pair>) -> bool {
    &&& keys_ascend(table)
    &&& forall|key: Seq<char>| #[trigger] lookup(table, key) == lookup(entries, key)
}

/// What a header holds, and how many bytes it takes. The entries are those of the
/// file, as they stand there.
pub struct Parsed {
    pub version: u32,
    pub tensor_count: int,
    pub metadata_count: int,
    pub entries: Seq<Pair>,
    pub end: int,
}

/// What a byte sequence means as a GGUF header.
pub open spec fn parsed(bytes: Seq<u8>) -> Result<Parsed, Fault> {
    match chunk(bytes, 0, 4, "magic"@, "magic"@) {
        Err(fault) => Err(fault),
        Ok((found, at)) => if found != magic() {
            Err(Fault::NotGguf { found })
        } else {
            parsed_after_magic(bytes, at)
        },
    }
}

pub open spec fn parsed_after_magic(bytes: Seq<u8>, at: int) -> Result<Parsed, Fault> {
    match number_at(bytes, at, 4, "version"@) {
        Err(fault) => Err(fault),
        Ok((version, tensors_at)) => if !supported(version as u32) {
            Err(Fault::UnsupportedVersion { version: version as u32 })
        } else {
            parsed_after_version(bytes, tensors_at, version as u32)
        },
    }
}

pub open spec fn parsed_after_version(bytes: Seq<u8>, at: int, version: u32) -> Result<
    Parsed,
    Fault,
> {
    match number_at(bytes, at, 8, "tensor count"@) {
        Err(fault) => Err(fault),
        Ok((tensor_count, count_at)) => if tensor_count > MAX_TENSOR_COUNT {
            Err(
                Fault::Implausible {
                    what: "tensor count"@,
                    value: tensor_count,
                    limit: MAX_TENSOR_COUNT as int,
                },
            )
        } else {
            match number_at(bytes, count_at, 8, "metadata count"@) {
                Err(fault) => Err(fault),
                Ok((metadata_count, from)) => if metadata_count > MAX_METADATA_ENTRIES {
                    Err(
                        Fault::Implausible {
                            what: "metadata count"@,
                            value: metadata_count,
                            limit: MAX_METADATA_ENTRIES as int,
                        },
                    )
                } else {
                    match entries_at(bytes, from, metadata_count as nat) {
                        Err(fault) => Err(fault),
                        Ok((entries, end)) => Ok(
                            Parsed { version, tensor_count, metadata_count, entries, end },
                        ),
                    }
                },
            }
        },
    }
}

// ---------------------------------------------------------------------------
// Laws of the format.

/// Whether reading failed for want of bytes.
pub open spec fn is_truncated<T>(result: Result<T, Fault>) -> bool {
    result matches Err(fault) && fault is Truncated
}

/// Whether `bytes` settles a reading: it did not run out, or it holds as much as
/// the budget could ever cover.
pub open spec fn settled<T>(bytes: Seq<u8>, result: Result<T, Fault>) -> bool {
    !is_truncated(result) || bytes.len() >= MAX_HEADER_BYTES
}

proof fn chunk_is_stable(
    bytes: Seq<u8>,
    more: Seq<u8>,
    at: int,
    n: int,
    budget_for: Seq<char>,
    what: Seq<char>,
)
    requires
        0 <= at,
        0 <= n,
        settled(bytes, chunk(bytes, at, n, budget_for, what)),
    ensures
        chunk(bytes + more, at, n, budget_for, what) == chunk(bytes, at, n, budget_for, what),
        chunk(bytes, at, n, budget_for, what) matches Ok((_, next)) ==> next == at + n && next
            <= MAX_HEADER_BYTES,
{
    if at + n <= bytes.len() {
        assert((bytes + more).subrange(at, at + n) =~= bytes.subrange(at, at + n));
    }
}

proof fn number_is_stable(bytes: Seq<u8>, more: Seq<u8>, at: int, n: int, what: Seq<char>)
    requires
        0 <= at,
        0 <= n,
        settled(bytes, number_at(bytes, at, n, what)),
    ensures
        number_at(bytes + more, at, n, what) == number_at(bytes, at, n, what),
        number_at(bytes, at, n, what) matches Ok((v, next)) ==> next == at + n && 0 <= v,
{
    chunk_is_stable(bytes, more, at, n, what, what);
    if let Ok((raw, _)) = chunk(bytes, at, n, what, what) {
        le_value_bounds(raw);
    }
}

proof fn string_is_stable(bytes: Seq<u8>, more: Seq<u8>, at: int, what: Seq<char>)
    requires
        0 <= at,
        settled(bytes, string_at(bytes, at, what)),
    ensures
        string_at(bytes + more, at, what) == string_at(bytes, at, what),
        string_at(bytes, at, what) matches Ok((_, next)) ==> at <= next,
{
    number_is_stable(bytes, more, at, 8, what);
    if let Ok((len, from)) = number_at(bytes, at, 8, what) {
        if len <= MAX_STRING_BYTES {
            chunk_is_stable(bytes, more, from, len, "string contents"@, what);
        }
    }
}

proof fn value_is_stable(bytes: Seq<u8>, more: Seq<u8>, at: int, type_id: u32)
    requires
        0 <= at,
        settled(bytes, value_at(bytes, at, type_id)),
    ensures
        value_at(bytes + more, at, type_id) == value_at(bytes, at, type_id),
        value_at(bytes, at, type_id) matches Ok((_, next)) ==> at <= next,
    decreases MAX_HEADER_BYTES - at, 0int, 0int,
{
    let n: int = if type_id == 0 || type_id == 1 || type_id == 7 {
        1
    } else if type_id == 2 || type_id == 3 {
        2
    } else if type_id == 4 || type_id == 5 || type_id == 6 {
        4
    } else {
        8
    };
    if type_id == 8 {
        string_is_stable(bytes, more, at, "string"@);
    } else if type_id == 9 {
        number_is_stable(bytes, more, at, 4, "array element type"@);
        if let Ok((element_type, middle)) = number_at(bytes, at, 4, "array element type"@) {
            number_is_stable(bytes, more, middle, 8, "array length"@);
            if let Ok((len, from)) = number_at(bytes, middle, 8, "array length"@) {
                if len <= MAX_ARRAY_LEN {
                    elements_are_stable(bytes, more, from, element_type as u32, len as nat);
                }
            }
        }
    } else if type_id <= 12 {
        let what = if type_id == 0 {
            "uint8"@
        } else if type_id == 1 {
            "int8"@
        } else if type_id == 2 {
            "uint16"@
        } else if type_id == 3 {
            "int16"@
        } else if type_id == 4 {
            "uint32"@
        } else if type_id == 5 {
            "int32"@
        } else if type_id == 6 {
            "float32"@
        } else if type_id == 7 {
            "bool"@
        } else if type_id == 10 {
            "uint64"@
        } else if type_id == 11 {
            "int64"@
        } else {
            "float64"@
        };
        number_is_stable(bytes, more, at, n, what);
    }
}

proof fn elements_are_stable(bytes: Seq<u8>, more: Seq<u8>, at: int, type_id: u32, count: nat)
    requires
        0 <= at,
        settled(bytes, elements_at(bytes, at, type_id, count)),
    ensures
        elements_at(bytes + more, at, type_id, count) == elements_at(bytes, at, type_id, count),
        elements_at(bytes, at, type_id, count) matches Ok((_, next)) ==> at <= next,
    decreases MAX_HEADER_BYTES - at, 1int, count,
{
    if count > 0 {
        value_is_stable(bytes, more, at, type_id);
        if let Ok((_, next)) = value_at(bytes, at, type_id) {
            if at <= next <= MAX_HEADER_BYTES {
                elements_are_stable(bytes, more, next, type_id, (count - 1) as nat);
            }
        }
    }
}

proof fn entries_are_stable(bytes: Seq<u8>, more: Seq<u8>, at: int, count: nat)
    requires
        0 <= at,
        settled(bytes, entries_at(bytes, at, count)),
    ensures
        entries_at(bytes + more, at, count) == entries_at(bytes, at, count),
    decreases count,
{
    if count > 0 {
        string_is_stable(bytes, more, at, "metadata key"@);
        if let Ok((_, typed)) = string_at(bytes, at, "metadata key"@) {
            number_is_stable(bytes, more, typed, 4, "metadata value type"@);
            if let Ok((type_id, from)) = number_at(bytes, typed, 4, "metadata value type"@) {
                value_is_stable(bytes, more, from, type_id as u32);
                if let Ok((_, next)) = value_at(bytes, from, type_id as u32) {
                    entries_are_stable(bytes, more, next, (count - 1) as nat);
                }
            }
        }
    }
}

proof fn parsed_is_stable(bytes: Seq<u8>, more: Seq<u8>)
    requires
        settled(bytes, parsed(bytes)),
    ensures
        parsed(bytes + more) == parsed(bytes),
{
    chunk_is_stable(bytes, more, 0, 4, "magic"@, "magic"@);
    if let Ok((found, _)) = chunk(bytes, 0, 4, "magic"@, "magic"@) {
        if found == magic() {
            number_is_stable(bytes, more, 4, 4, "version"@);
            if let Ok((version, _)) = number_at(bytes, 4, 4, "version"@) {
                if supported(version as u32) {
                    number_is_stable(bytes, more, 8, 8, "tensor count"@);
                    if let Ok((tensor_count, _)) = number_at(bytes, 8, 8, "tensor count"@) {
                        if tensor_count <= MAX_TENSOR_COUNT {
                            number_is_stable(bytes, more, 16, 8, "metadata count"@);
                            if let Ok((count, _)) = number_at(bytes, 16, 8, "metadata count"@) {
                                if count <= MAX_METADATA_ENTRIES {
                                    entries_are_stable(bytes, more, 24, count as nat);
                                }
                            }
                        }
                    }
                }
            }
        }
    }
}

/// Once a header has been understood or refused for any reason but a missing end,
/// nothing that follows in the file changes the answer: tensor data is never read.
pub proof fn later_bytes_are_never_read(bytes: Seq<u8>, more: Seq<u8>)
    requires
        !is_truncated(parsed(bytes)),
    ensures
        parsed(bytes + more) == parsed(bytes),
{
    parsed_is_stable(bytes, more);
}

/// However large a file is, what it means as a header depends on nothing past the
/// budget.
pub proof fn only_the_budget_is_read(bytes: Seq<u8>)
    requires
        bytes.len() >= MAX_HEADER_BYTES,
    ensures
        parsed(bytes) == parsed(bytes.take(MAX_HEADER_BYTES as int)),
{
    let kept = bytes.take(MAX_HEADER_BYTES as int);
    let rest = bytes.skip(MAX_HEADER_BYTES as int);
    assert(kept + rest =~= bytes);
    parsed_is_stable(kept, rest);
}

/// Whether a text takes no more bytes than a string may.
pub open spec fn text_is_bounded(text: Seq<char>) -> bool {
    encode_utf8(text).len() <= MAX_STRING_BYTES
}

/// Every array inside a value is short or summarised, and every text short enough.
pub open spec fn value_is_bounded(value: Value) -> bool
    decreases value,
{
    match value {
        Value::Text(text) => text_is_bounded(text),
        Value::Array(items) => items.len() <= MAX_RETAINED_ARRAY_LEN && forall|i: int|
            0 <= i < items.len() ==> value_is_bounded(#[trigger] items[i]),
        Value::LargeArray { len, .. } => MAX_RETAINED_ARRAY_LEN < len <= MAX_ARRAY_LEN,
        _ => true,
    }
}

/// What a string reading gives is bounded and ends inside the bytes.
proof fn string_shape(bytes: Seq<u8>, at: int, what: Seq<char>)
    requires
        0 <= at,
    ensures
        string_at(bytes, at, what) matches Ok((text, next)) ==> text_is_bounded(text) && at + 8
            <= next <= bytes.len() && next <= MAX_HEADER_BYTES,
{
    if let Ok((text, next)) = string_at(bytes, at, what) {
        let (len, from) = number_at(bytes, at, 8, what)->Ok_0;
        le_value_bounds(bytes.subrange(at, at + 8));
        let raw = bytes.subrange(from, from + len);
        decode_utf8_encode_utf8(raw);
    }
}

/// What a reading gives is bounded and ends inside the bytes.
proof fn value_shape(bytes: Seq<u8>, at: int, type_id: u32)
    requires
        0 <= at,
    ensures
        value_at(bytes, at, type_id) matches Ok((value, next)) ==> value_is_bounded(value) && at
            < next <= bytes.len() && next <= MAX_HEADER_BYTES,
    decreases MAX_HEADER_BYTES - at, 0int, 0int,
{
    if type_id == 8 {
        string_shape(bytes, at, "string"@);
    } else if type_id == 9 {
        if let Ok((element_type, middle)) = number_at(bytes, at, 4, "array element type"@) {
            if let Ok((len, from)) = number_at(bytes, middle, 8, "array length"@) {
                if len <= MAX_ARRAY_LEN {
                    le_value_bounds(bytes.subrange(middle, middle + 8));
                    elements_shape(bytes, from, element_type as u32, len as nat);
                }
            }
        }
    }
}

proof fn elements_shape(bytes: Seq<u8>, at: int, type_id: u32, count: nat)
    requires
        0 <= at <= bytes.len(),
        at <= MAX_HEADER_BYTES,
    ensures
        elements_at(bytes, at, type_id, count) matches Ok((items, next)) ==> items.len() == count
            && at <= next <= bytes.len() && next <= MAX_HEADER_BYTES && forall|i: int|
            0 <= i < items.len() ==> value_is_bounded(#[trigger] items[i]),
    decreases MAX_HEADER_BYTES - at, 1int, count,
{
    if count > 0 {
        value_shape(bytes, at, type_id);
        if let Ok((_, next)) = value_at(bytes, at, type_id) {
            if at <= next <= MAX_HEADER_BYTES {
                elements_shape(bytes, next, type_id, (count - 1) as nat);
            }
        }
    }
}

proof fn entries_shape(bytes: Seq<u8>, at: int, count: nat)
    requires
        0 <= at <= bytes.len(),
        at <= MAX_HEADER_BYTES,
    ensures
        entries_at(bytes, at, count) matches Ok((entries, end)) ==> entries.len() == count && at
            <= end <= bytes.len() && end <= MAX_HEADER_BYTES && forall|i: int|
            0 <= i < entries.len() ==> text_is_bounded((#[trigger] entries[i]).0)
                && value_is_bounded(entries[i].1),
    decreases count,
{
    if count > 0 {
        if let Ok((_, next)) = entry_at(bytes, at) {
            let (_, typed) = string_at(bytes, at, "metadata key"@)->Ok_0;
            string_shape(bytes, at, "metadata key"@);
            let (type_id, from) = number_at(bytes, typed, 4, "metadata value type"@)->Ok_0;
            value_shape(bytes, from, type_id as u32);
            entries_shape(bytes, next, (count - 1) as nat);
        }
    }
}

/// Whatever a container claims, an accepted header has a supported version, counts
/// within their limits, as many entries as it declared, no key or text longer than a
/// string may be, and no array longer than what is retained; and it ends inside its
/// bytes and inside the budget.
pub proof fn accepted_headers_are_bounded(bytes: Seq<u8>)
    ensures
        parsed(bytes) matches Ok(header) ==> {
            &&& supported(header.version)
            &&& 0 <= header.tensor_count <= MAX_TENSOR_COUNT
            &&& 0 <= header.metadata_count <= MAX_METADATA_ENTRIES
            &&& header.entries.len() == header.metadata_count
            &&& forall|i: int|
                0 <= i < header.entries.len() ==> text_is_bounded((#[trigger] header.entries[i]).0)
                    && value_is_bounded(header.entries[i].1)
            &&& 24 <= header.end <= bytes.len()
            &&& header.end <= MAX_HEADER_BYTES
        },
{
    if let Ok(header) = parsed(bytes) {
        le_value_bounds(bytes.subrange(8, 16));
        le_value_bounds(bytes.subrange(16, 24));
        entries_shape(bytes, 24, header.metadata_count as nat);
    }
}

/// A header that was cut short is reported as such: no proper part of what a header
/// takes is understood, or refused for another reason.
pub proof fn every_cut_of_a_header_is_truncated(bytes: Seq<u8>, n: int)
    requires
        parsed(bytes) is Ok,
        0 <= n < parsed(bytes)->Ok_0.end,
    ensures
        is_truncated(parsed(bytes.take(n))),
{
    accepted_headers_are_bounded(bytes);
    let kept = bytes.take(n);
    if !is_truncated(parsed(kept)) {
        assert(kept + bytes.skip(n) =~= bytes);
        later_bytes_are_never_read(kept, bytes.skip(n));
        accepted_headers_are_bounded(kept);
    }
}

/// 256 to the power `n`.
pub open spec fn span(n: nat) -> int
    decreases n,
{
    if n == 0 {
        1
    } else {
        256 * span((n - 1) as nat)
    }
}

proof fn le_value_bounds(bytes: Seq<u8>)
    ensures
        0 <= le_value(bytes) < span(bytes.len()),
    decreases bytes.len(),
{
    if bytes.len() > 0 {
        le_value_bounds(bytes.drop_first());
    }
}

proof fn span_values()
    ensures
        span(1) == 0x100,
        span(2) == 0x1_0000,
        span(4) == 0x1_0000_0000,
        span(8) == 0x1_0000_0000_0000_0000,
{
    reveal_with_fuel(span, 9);
}

proof fn span_grows(a: nat, b: nat)
    requires
        a <= b,
    ensures
        1 <= span(a) <= span(b),
    decreases b,
{
    if a < b {
        span_grows(a, (b - 1) as nat);
    } else if b > 0 {
        span_grows((a - 1) as nat, (b - 1) as nat);
    }
}

// Keys and their positions.

proof fn position_bounds(entries: Seq<Pair>, key: Seq<char>)
    ensures
        0 <= position_of(entries, key) <= entries.len(),
        position_of(entries, key) < entries.len() ==> entries[position_of(entries, key)].0 == key,
        forall|i: int| 0 <= i < position_of(entries, key) ==> (#[trigger] entries[i]).0 != key,
    decreases entries.len(),
{
    if entries.len() > 0 && entries[0].0 != key {
        let rest = entries.drop_first();
        position_bounds(rest, key);
        assert forall|i: int| 0 <= i < position_of(entries, key) implies (
        #[trigger] entries[i]).0 != key by {
            if i > 0 {
                assert(entries[i] == rest[i - 1]);
            }
        }
    }
}

proof fn position_is(entries: Seq<Pair>, key: Seq<char>, at: int)
    requires
        0 <= at <= entries.len(),
        at < entries.len() ==> entries[at].0 == key,
        forall|i: int| 0 <= i < at ==> (#[trigger] entries[i]).0 != key,
    ensures
        position_of(entries, key) == at,
{
    position_bounds(entries, key);
    let p = position_of(entries, key);
    if p < at {
        assert(entries[p].0 != key);
    } else if at < p {
        assert(entries[at].0 != key);
    }
}

proof fn positions_after_insert(entries: Seq<Pair>, entry: Pair, key: Seq<char>)
    ensures
        ({
            let at = position_of(entries, key);
            let after = inserted(entries, entry);
            if key == entry.0 {
                position_of(after, key) == at && at < after.len()
            } else if at < entries.len() {
                position_of(after, key) == at
            } else {
                position_of(after, key) == after.len()
            }
        }),
{
    position_bounds(entries, key);
    position_bounds(entries, entry.0);
    let at = position_of(entries, key);
    let after = inserted(entries, entry);
    if key == entry.0 || at < entries.len() {
        position_is(after, key, at);
    } else {
        position_is(after, key, after.len() as int);
    }
}

/// Whether every key stands once.
pub open spec fn keys_are_distinct(entries: Seq<Pair>) -> bool {
    forall|i: int, j: int|
        0 <= i < j < entries.len() ==> (#[trigger] entries[i]).0 != (#[trigger] entries[j]).0
}

proof fn lookup_after_insert(entries: Seq<Pair>, entry: Pair, key: Seq<char>)
    requires
        keys_are_distinct(entries),
    ensures
        lookup(inserted(entries, entry), key) == if key == entry.0 {
            Some(entry.1)
        } else {
            lookup(entries, key)
        },
    decreases entries.len(),
{
    position_bounds(entries, entry.0);
    let at = position_of(entries, entry.0);
    if at >= entries.len() {
        assert(entries.push(entry).drop_last() =~= entries);
    } else {
        let last = entries.len() - 1;
        let after = entries.update(at, entry);
        if at == last {
            assert(after.drop_last() =~= entries.drop_last());
        } else {
            let rest = entries.drop_last();
            assert forall|i: int| 0 <= i < at implies (#[trigger] rest[i]).0 != entry.0 by {
                assert(rest[i] == entries[i]);
            }
            position_is(rest, entry.0, at);
            assert(after.drop_last() =~= inserted(rest, entry));
            lookup_after_insert(rest, entry, key);
            assert(entries[at].0 != entries[last].0);
        }
    }
}

/// What the merged entries give for a key is the last value the file gave for it.
proof fn merging_keeps_the_last_value(entries: Seq<Pair>, key: Seq<char>)
    ensures
        keys_are_distinct(merged(entries)),
        lookup(merged(entries), key) == lookup(entries, key),
    decreases entries.len(),
{
    if entries.len() > 0 {
        let before = merged(entries.drop_last());
        let entry = entries.last();
        merging_keeps_the_last_value(entries.drop_last(), key);
        lookup_after_insert(before, entry, key);
        position_bounds(before, entry.0);
    }
}

/// What a lookup finds is an entry, and it finds nothing only where the key does not
/// stand.
proof fn lookup_finds(entries: Seq<Pair>, key: Seq<char>)
    ensures
        match lookup(entries, key) {
            Some(value) => entries.contains((key, value)),
            None => forall|i: int| 0 <= i < entries.len() ==> (#[trigger] entries[i]).0 != key,
        },
    decreases entries.len(),
{
    if entries.len() > 0 {
        let last = entries.len() - 1;
        let front = entries.drop_last();
        if entries[last].0 == key {
            assert(entries[last] == (key, entries[last].1));
        } else {
            lookup_finds(front, key);
            match lookup(front, key) {
                Some(value) => {
                    let i = choose|i: int| 0 <= i < front.len() && front[i] == (key, value);
                    assert(entries[i] == (key, value));
                },
                None => {
                    assert forall|i: int| 0 <= i < entries.len() implies (
                    #[trigger] entries[i]).0 != key by {
                        if i < last {
                            assert(front[i] == entries[i]);
                        }
                    }
                },
            }
        }
    }
}

/// Where each key stands once, a lookup finds the entry of its key.
proof fn lookup_of_entry(entries: Seq<Pair>, entry: Pair)
    requires
        keys_are_distinct(entries),
        entries.contains(entry),
    ensures
        lookup(entries, entry.0) == Some(entry.1),
{
    lookup_finds(entries, entry.0);
    let i = choose|i: int| 0 <= i < entries.len() && entries[i] == entry;
    assert(entries[i].0 == entry.0);
    let found = (entry.0, lookup(entries, entry.0)->0);
    let j = choose|j: int| 0 <= j < entries.len() && entries[j] == found;
    if i < j {
        assert(entries[i].0 != entries[j].0);
    } else if j < i {
        assert(entries[j].0 != entries[i].0);
    }
}

proof fn ascending_keys_are_distinct(entries: Seq<Pair>)
    requires
        keys_ascend(entries),
    ensures
        keys_are_distinct(entries),
{
    assert forall|i: int, j: int| 0 <= i < j < entries.len() implies (#[trigger] entries[i]).0 != (
    #[trigger] entries[j]).0 by {
        text_is_ordered(entries[i].0, entries[j].0, entries[j].0);
    }
}

/// A list with the same members gives the same for every key.
proof fn same_members_same_lookup(a: Seq<Pair>, b: Seq<Pair>, key: Seq<char>)
    requires
        keys_are_distinct(a),
        keys_are_distinct(b),
        forall|p: Pair| #[trigger] a.contains(p) <==> b.contains(p),
    ensures
        lookup(a, key) == lookup(b, key),
{
    lookup_finds(a, key);
    lookup_finds(b, key);
    match (lookup(a, key), lookup(b, key)) {
        (Some(value), _) => {
            assert(a.contains((key, value)));
            lookup_of_entry(b, (key, value));
        },
        (None, Some(value)) => {
            assert(a.contains((key, value)));
            lookup_of_entry(a, (key, value));
        },
        (None, None) => {},
    }
}

/// The key that stands last in one of two tables that agree on every key does not
/// stand after the last of the other.
proof fn last_key_is_no_later(a: Seq<Pair>, b: Seq<Pair>)
    requires
        keys_ascend(b),
        a.len() > 0,
        forall|key: Seq<char>| #[trigger] lookup(a, key) == lookup(b, key),
    ensures
        b.len() > 0,
        a.last().0 == b.last().0 || text_precedes(a.last().0, b.last().0),
{
    let key = a.last().0;
    assert(lookup(a, key) == Some(a.last().1));
    assert(lookup(a, key) == lookup(b, key));
    lookup_finds(b, key);
    let found = (key, lookup(b, key)->0);
    let i = choose|i: int| 0 <= i < b.len() && b[i] == found;
    assert(b[i].0 == key);
    if i < b.len() - 1 {
        assert(text_precedes(b[i].0, b[b.len() - 1].0));
    }
}

proof fn tables_that_agree_are_equal(a: Seq<Pair>, b: Seq<Pair>)
    requires
        keys_ascend(a),
        keys_ascend(b),
        forall|key: Seq<char>| #[trigger] lookup(a, key) == lookup(b, key),
    ensures
        a == b,
    decreases a.len(),
{
    if a.len() == 0 {
        if b.len() > 0 {
            assert(lookup(b, b.last().0) is Some);
            assert(lookup(a, b.last().0) == lookup(b, b.last().0));
        }
        assert(a =~= b);
    } else {
        last_key_is_no_later(a, b);
        last_key_is_no_later(b, a);
        let key = a.last().0;
        text_is_ordered(key, b.last().0, key);
        assert(lookup(a, key) == lookup(b, key));
        let front = a.drop_last();
        let other = b.drop_last();
        assert forall|k: Seq<char>| #[trigger] lookup(front, k) == lookup(other, k) by {
            assert(lookup(a, k) == lookup(b, k));
            if k == key {
                lookup_finds(front, k);
                lookup_finds(other, k);
                if let Some(value) = lookup(front, k) {
                    let i = choose|i: int| 0 <= i < front.len() && front[i] == (k, value);
                    assert(text_precedes(a[i].0, a[a.len() - 1].0));
                    text_is_ordered(key, key, key);
                }
                if let Some(value) = lookup(other, k) {
                    let i = choose|i: int| 0 <= i < other.len() && other[i] == (k, value);
                    assert(text_precedes(b[i].0, b[b.len() - 1].0));
                    text_is_ordered(key, key, key);
                }
            }
        }
        assert forall|i: int, j: int| 0 <= i < j < front.len() implies text_precedes(
            (#[trigger] front[i]).0,
            (#[trigger] front[j]).0,
        ) by {
            assert(text_precedes(a[i].0, a[j].0));
        }
        assert forall|i: int, j: int| 0 <= i < j < other.len() implies text_precedes(
            (#[trigger] other[i]).0,
            (#[trigger] other[j]).0,
        ) by {
            assert(text_precedes(b[i].0, b[j].0));
        }
        tables_that_agree_are_equal(front, other);
        assert(a =~= front.push(a.last()));
        assert(b =~= other.push(b.last()));
    }
}

/// Two containers that give the same last value for every key have the same table,
/// in whatever order their entries stand.
pub proof fn the_order_of_entries_makes_no_difference(
    a: Seq<Pair>,
    b: Seq<Pair>,
    table: Seq<Pair>,
    other: Seq<Pair>,
)
    requires
        tabulates(table, a),
        tabulates(other, b),
        forall|key: Seq<char>| #[trigger] lookup(a, key) == lookup(b, key),
    ensures
        table == other,
{
    assert forall|key: Seq<char>| #[trigger] lookup(table, key) == lookup(other, key) by {
        assert(lookup(table, key) == lookup(a, key));
        assert(lookup(a, key) == lookup(b, key));
        assert(lookup(other, key) == lookup(b, key));
    }
    tables_that_agree_are_equal(table, other);
}

/// A table keeps each key once, with the last value given for it, and no other.
pub proof fn the_last_value_of_a_key_wins(entries: Seq<Pair>, table: Seq<Pair>, key: Seq<char>)
    requires
        tabulates(table, entries),
    ensures
        keys_are_distinct(table),
        lookup(table, key) == lookup(entries, key),
        match lookup(entries, key) {
            Some(value) => table.contains((key, value)),
            None => forall|i: int| 0 <= i < table.len() ==> (#[trigger] table[i]).0 != key,
        },
{
    ascending_keys_are_distinct(table);
    lookup_finds(table, key);
}

// ---------------------------------------------------------------------------
// Reading.

/// A reader over a byte slice that refuses to consume more than the budget.
struct Budgeted<'a> {
    source: &'a [u8],
    at: usize,
    remaining: u64,
}

impl<'a> Budgeted<'a> {
    spec fn wf(&self) -> bool {
        &&& self.at + self.remaining == MAX_HEADER_BYTES
        &&& self.at <= self.source@.len()
    }

    /// Whether this reader has moved on from `before` without losing its footing.
    spec fn follows(&self, before: &Self) -> bool {
        &&& self.wf()
        &&& self.source == before.source
        &&& before.at <= self.at
    }

    fn new(source: &'a [u8]) -> (reader: Self)
        ensures
            reader.wf(),
            reader.at == 0,
            reader.source == source,
    {
        Budgeted { source, at: 0, remaining: MAX_HEADER_BYTES }
    }

    /// Takes `n` bytes out of the budget and then out of the source.
    fn take(&mut self, n: u64, budget_for: &'static str, what: &'static str) -> (result: Result<
        &'a [u8],
        GgufError,
    >)
        requires
            old(self).wf(),
        ensures
            match (result, chunk(old(self).source@, old(self).at as int, n as int, budget_for@, what@)) {
                (Ok(raw), Ok((expected, next))) => raw@ == expected && final(self).at == next
                    && final(self).follows(old(self)),
                (Err(err), Err(fault)) => err@ == fault,
                _ => false,
            },
    {
        if n > self.remaining {
            return Err(
                GgufError::Implausible { what: budget_for, value: n, limit: self.remaining },
            );
        }
        if n > (self.source.len() - self.at) as u64 {
            return Err(GgufError::Truncated { what });
        }
        let next: usize = self.at + n as usize;
        let raw = vstd::slice::slice_subrange(self.source, self.at, next);
        self.at = next;
        self.remaining = self.remaining - n;
        Ok(raw)
    }

    /// Reads a little-endian number of `n` bytes.
    fn number(&mut self, n: u64, what: &'static str) -> (result: Result<u64, GgufError>)
        requires
            old(self).wf(),
            n <= 8,
        ensures
            match (result, number_at(old(self).source@, old(self).at as int, n as int, what@)) {
                (Ok(v), Ok((expected, next))) => v == expected && v < span(n as nat)
                    && final(self).at == next && next == old(self).at + n
                    && final(self).follows(old(self)),
                (Err(err), Err(fault)) => err@ == fault,
                _ => false,
            },
    {
        match self.take(n, what, what) {
            Ok(raw) => {
                proof {
                    le_value_bounds(raw@);
                }
                Ok(le_number(raw))
            },
            Err(err) => Err(err),
        }
    }

    /// Reads a length-prefixed string, bounding its length before copying it.
    fn string(&mut self, what: &'static str) -> (result: Result<String, GgufError>)
        requires
            old(self).wf(),
        ensures
            match (result, string_at(old(self).source@, old(self).at as int, what@)) {
                (Ok(text), Ok((expected, next))) => text@ == expected && final(self).at == next
                    && final(self).follows(old(self)),
                (Err(err), Err(fault)) => err@ == fault,
                _ => false,
            },
    {
        let len: u64 = match self.number(8, what) {
            Ok(len) => len,
            Err(err) => {
                return Err(err);
            },
        };
        if len > MAX_STRING_BYTES {
            return Err(
                GgufError::Implausible {
                    what: "string length",
                    value: len,
                    limit: MAX_STRING_BYTES,
                },
            );
        }
        match self.take(len, "string contents", what) {
            Err(err) => Err(err),
            Ok(raw) => match decode_text(raw) {
                Ok(text) => Ok(text),
                Err(_) => Err(GgufError::InvalidText { key: what.to_owned() }),
            },
        }
    }
}

fn le_number(bytes: &[u8]) -> (v: u64)
    requires
        bytes@.len() <= 8,
    ensures
        v == le_value(bytes@),
{
    let mut i: usize = bytes.len();
    let mut v: u64 = 0;
    assert(bytes@.skip(i as int) =~= Seq::empty());
    while i > 0
        invariant
            i <= bytes@.len() <= 8,
            v == le_value(bytes@.skip(i as int)),
            v < span((bytes@.len() - i) as nat),
        decreases i,
    {
        proof {
            span_grows((bytes@.len() - i + 1) as nat, 8);
            span_values();
            assert(bytes@.skip(i - 1).drop_first() =~= bytes@.skip(i as int));
        }
        i = i - 1;
        v = v * 256 + bytes[i] as u64;
    }
    assert(bytes@.skip(0) =~= bytes@);
    v
}

fn twos_complement(v: u64, span: i128) -> (r: i64)
    requires
        v < span <= 0x1_0000_0000_0000_0000,
        span % 2 == 0,
    ensures
        r == signed(v as int, span as int),
        -(span / 2) <= r < span / 2,
{
    if (v as i128) < span / 2 {
        v as i64
    } else {
        (v as i128 - span) as i64
    }
}

/// Reads a value of the given type that is no array.
fn read_scalar(reader: &mut Budgeted, type_id: u32) -> (result: Result<MetadataValue, GgufError>)
    requires
        old(reader).wf(),
        type_id != 9,
    ensures
        match (result, value_at(old(reader).source@, old(reader).at as int, type_id)) {
            (Ok(value), Ok((expected, next))) => value@ == expected && final(reader).at == next
                && final(reader).follows(old(reader)) && old(reader).at < final(reader).at,
            (Err(err), Err(fault)) => err@ == fault,
            _ => false,
        },
{
    proof {
        span_values();
    }
    match type_id {
        0 => match reader.number(1, "uint8") {
            Ok(v) => Ok(MetadataValue::U8(v as u8)),
            Err(err) => Err(err),
        },
        1 => match reader.number(1, "int8") {
            Ok(v) => Ok(MetadataValue::I8(twos_complement(v, 0x100) as i8)),
            Err(err) => Err(err),
        },
        2 => match reader.number(2, "uint16") {
            Ok(v) => Ok(MetadataValue::U16(v as u16)),
            Err(err) => Err(err),
        },
        3 => match reader.number(2, "int16") {
            Ok(v) => Ok(MetadataValue::I16(twos_complement(v, 0x1_0000) as i16)),
            Err(err) => Err(err),
        },
        4 => match reader.number(4, "uint32") {
            Ok(v) => Ok(MetadataValue::U32(v as u32)),
            Err(err) => Err(err),
        },
        5 => match reader.number(4, "int32") {
            Ok(v) => Ok(MetadataValue::I32(twos_complement(v, 0x1_0000_0000) as i32)),
            Err(err) => Err(err),
        },
        6 => match reader.number(4, "float32") {
            Ok(v) => Ok(MetadataValue::F32(v as u32)),
            Err(err) => Err(err),
        },
        7 => match reader.number(1, "bool") {
            Ok(v) => Ok(MetadataValue::Bool(v != 0)),
            Err(err) => Err(err),
        },
        8 => match reader.string("string") {
            Ok(text) => {
                proof {
                    string_shape(old(reader).source@, old(reader).at as int, "string"@);
                }
                Ok(MetadataValue::String(text))
            },
            Err(err) => Err(err),
        },
        10 => match reader.number(8, "uint64") {
            Ok(v) => Ok(MetadataValue::U64(v)),
            Err(err) => Err(err),
        },
        11 => match reader.number(8, "int64") {
            Ok(v) => Ok(MetadataValue::I64(twos_complement(v, 0x1_0000_0000_0000_0000))),
            Err(err) => Err(err),
        },
        12 => match reader.number(8, "float64") {
            Ok(v) => Ok(MetadataValue::F64(v)),
            Err(err) => Err(err),
        },
        other => Err(GgufError::UnknownValueType { type_id: other }),
    }
}

/// An array that is being read: how many of its elements were, and those to keep.
struct OpenArray {
    element_type: u32,
    len: u64,
    done: u64,
    kept: Vec<MetadataValue>,
}

/// What an [`OpenArray`] stands for.
struct Opened {
    element_type: u32,
    len: int,
    seen: Seq<Value>,
}

impl OpenArray {
    spec fn stands_for(&self, opened: Opened) -> bool {
        &&& self.element_type == opened.element_type
        &&& self.len == opened.len
        &&& self.done == opened.seen.len()
        &&& self.done <= self.len <= MAX_ARRAY_LEN
        &&& self.len <= MAX_RETAINED_ARRAY_LEN ==> self.kept@.map_values(
            |v: MetadataValue| v@,
        ) == opened.seen
    }
}

/// Whether each open array stands for what was opened, the innermost last.
spec fn stand_for(arrays: Seq<OpenArray>, opened: Seq<Opened>) -> bool {
    &&& arrays.len() == opened.len()
    &&& forall|i: int| 0 <= i < arrays.len() ==> (#[trigger] arrays[i]).stands_for(opened[i])
}

/// What comes of the outermost value once a value inside the open arrays ended.
spec fn closed_with(bytes: Seq<u8>, opened: Seq<Opened>, value: Value, at: int) -> Result<
    (Value, int),
    Fault,
>
    decreases opened.len(),
{
    if opened.len() == 0 {
        Ok((value, at))
    } else {
        let top = opened.last();
        let seen = top.seen.push(value);
        match elements_at(bytes, at, top.element_type, (top.len - seen.len()) as nat) {
            Err(fault) => Err(fault),
            Ok((rest, next)) => closed_with(
                bytes,
                opened.drop_last(),
                array_value(top.element_type, top.len, seen + rest),
                next,
            ),
        }
    }
}

/// What comes of the outermost value once the innermost open array goes on at `at`.
spec fn gone_on(bytes: Seq<u8>, opened: Seq<Opened>, at: int) -> Result<(Value, int), Fault> {
    let top = opened.last();
    match elements_at(bytes, at, top.element_type, (top.len - top.seen.len()) as nat) {
        Err(fault) => Err(fault),
        Ok((rest, next)) => closed_with(
            bytes,
            opened.drop_last(),
            array_value(top.element_type, top.len, top.seen + rest),
            next,
        ),
    }
}

/// What comes of the outermost value once a value of a type is read inside the open
/// arrays.
spec fn read_inside(bytes: Seq<u8>, opened: Seq<Opened>, type_id: u32, at: int) -> Result<
    (Value, int),
    Fault,
> {
    match value_at(bytes, at, type_id) {
        Err(fault) => Err(fault),
        Ok((value, next)) => closed_with(bytes, opened, value, next),
    }
}

/// Reads a value of the given type.
///
/// Arrays inside arrays are kept in a list while they are open, so that how deep a
/// container nests them makes no difference to the stack.
fn read_value(reader: &mut Budgeted, type_id: u32) -> (result: Result<MetadataValue, GgufError>)
    requires
        old(reader).wf(),
    ensures
        match (result, value_at(old(reader).source@, old(reader).at as int, type_id)) {
            (Ok(value), Ok((expected, next))) => value@ == expected && final(reader).at == next
                && final(reader).follows(old(reader)),
            (Err(err), Err(fault)) => err@ == fault,
            _ => false,
        },
{
    let mut arrays: Vec<OpenArray> = Vec::new();
    let result = read_with(reader, type_id, &mut arrays);
    while arrays.len() > 0
        invariant
            true,
        decreases arrays@.len(),
    {
        if let Some(array) = arrays.pop() {
            let mut kept = array.kept;
            dismantle(&mut kept);
        }
    }
    result
}

/// Reads a value of the given type, with a list for the arrays that are open.
fn read_with(reader: &mut Budgeted, type_id: u32, arrays: &mut Vec<OpenArray>) -> (result: Result<
    MetadataValue,
    GgufError,
>)
    requires
        old(reader).wf(),
        old(arrays)@.len() == 0,
    ensures
        match (result, value_at(old(reader).source@, old(reader).at as int, type_id)) {
            (Ok(value), Ok((expected, next))) => value@ == expected && final(reader).at == next
                && final(reader).follows(old(reader)),
            (Err(err), Err(fault)) => err@ == fault,
            _ => false,
        },
{
    let ghost bytes = reader.source@;
    let ghost mut opened: Seq<Opened> = Seq::empty();
    let ghost target = value_at(bytes, reader.at as int, type_id);
    let mut wanted: u32 = type_id;
    loop
        invariant
            old(reader).wf(),
            reader.follows(old(reader)),
            bytes == reader.source@,
            target == value_at(bytes, old(reader).at as int, type_id),
            stand_for(arrays@, opened),
            forall|i: int| 0 <= i < opened.len() ==> (#[trigger] opened[i]).seen.len()
                < opened[i].len,
            target == read_inside(bytes, opened, wanted, reader.at as int),
        decreases reader.remaining,
    {
        let ghost before = *reader;
        let mut ended: Option<MetadataValue> = None;
        if wanted == 9 {
            let array = match open_array(reader) {
                Ok(array) => array,
                Err(err) => {
                    return Err(err);
                },
            };
            proof {
                let opening = Opened {
                    element_type: array.element_type,
                    len: array.len as int,
                    seen: Seq::empty(),
                };
                let more = opened.push(opening);
                assert(more.drop_last() =~= opened);
                match elements_at(bytes, reader.at as int, array.element_type, array.len as nat) {
                    Ok((rest, _)) => {
                        assert(opening.seen + rest =~= rest);
                    },
                    Err(_) => {},
                }
                assert(array.kept@.map_values(|v: MetadataValue| v@) =~= opening.seen);
                opened = more;
            }
            arrays.push(array);
        } else {
            match read_scalar(reader, wanted) {
                Ok(value) => {
                    ended = Some(value);
                },
                Err(err) => {
                    return Err(err);
                },
            }
        }
        loop
            invariant_except_break
                match ended {
                    Some(value) => target == closed_with(bytes, opened, value@, reader.at as int)
                        && (opened.len() > 0 ==> opened.last().seen.len() < opened.last().len),
                    None => opened.len() > 0 && target == gone_on(
                        bytes,
                        opened,
                        reader.at as int,
                    ),
                },
            invariant
                reader.follows(&before),
                before.follows(old(reader)),
                before.remaining > reader.remaining,
                old(reader).wf(),
                bytes == reader.source@,
                target == value_at(bytes, old(reader).at as int, type_id),
                stand_for(arrays@, opened),
                forall|i: int|
                    0 <= i < opened.len() - 1 ==> (#[trigger] opened[i]).seen.len()
                        < opened[i].len,
            ensures
                opened.len() > 0,
                opened.last().seen.len() < opened.last().len,
                wanted == opened.last().element_type,
                target == gone_on(bytes, opened, reader.at as int),
            decreases arrays@.len(),
        {
            let mut top = match arrays.pop() {
                Some(top) => top,
                None => {
                    match ended {
                        Some(value) => {
                            return Ok(value);
                        },
                        None => {
                            // An array is open unless a value ended.
                            return vstd::pervasive::unreached();
                        },
                    }
                },
            };
            let ghost outer = opened.drop_last();
            let ghost mut inner = opened.last();
            if let Some(value) = ended {
                let ghost seen = inner.seen.push(value@);
                top.done = top.done + 1;
                if top.len <= MAX_RETAINED_ARRAY_LEN {
                    let ghost earlier = top.kept@;
                    top.kept.push(value);
                    assert(top.kept@.map_values(|v: MetadataValue| v@) =~= earlier.map_values(
                        |v: MetadataValue| v@,
                    ).push(value@));
                } else if let MetadataValue::Array(items) = value {
                    let mut items = items;
                    dismantle(&mut items);
                }
                proof {
                    inner = Opened { seen, ..inner };
                }
            }
            assert(target == gone_on(bytes, outer.push(inner), reader.at as int)) by {
                assert(outer.push(inner).drop_last() =~= outer);
            }
            if top.done < top.len {
                wanted = top.element_type;
                arrays.push(top);
                proof {
                    opened = outer.push(inner);
                }
                break;
            }
            proof {
                assert(inner.seen + Seq::<Value>::empty() =~= inner.seen);
                opened = outer;
            }
            if top.len <= MAX_RETAINED_ARRAY_LEN {
                let value = MetadataValue::Array(top.kept);
                assert(value@->Array_0 =~= inner.seen);
                ended = Some(value);
            } else {
                ended = Some(
                    MetadataValue::LargeArray { element_type: top.element_type, len: top.len },
                );
            }
        }
        proof {
            let top = opened.last();
            let at = reader.at as int;
            value_shape(bytes, at, top.element_type);
            if let Ok((value, next)) = value_at(bytes, at, top.element_type) {
                let count = (top.len - top.seen.len() - 1) as nat;
                if let Ok((rest, _)) = elements_at(bytes, next, top.element_type, count) {
                    assert(top.seen + (seq![value] + rest) =~= top.seen.push(value) + rest);
                }
            }
        }
    }
}

/// Reads the beginning of an array: an element type and a length.
///
/// A long array still has to be read to reach the entries after it, but only its
/// shape is kept.
fn open_array(reader: &mut Budgeted) -> (result: Result<OpenArray, GgufError>)
    requires
        old(reader).wf(),
    ensures
        match result {
            Ok(array) => {
                &&& final(reader).follows(old(reader))
                &&& final(reader).at == old(reader).at + 12
                &&& array.done == 0
                &&& array.len <= MAX_ARRAY_LEN
                &&& array.kept@.len() == 0
                &&& value_at(old(reader).source@, old(reader).at as int, 9) == match elements_at(
                    old(reader).source@,
                    final(reader).at as int,
                    array.element_type,
                    array.len as nat,
                ) {
                    Ok((items, next)) => Ok(
                        (array_value(array.element_type, array.len as int, items), next),
                    ),
                    Err(fault) => Err(fault),
                }
            },
            Err(err) => value_at(old(reader).source@, old(reader).at as int, 9) == Err::<
                (Value, int),
                Fault,
            >(err@),
        },
{
    proof {
        span_values();
    }
    let element_type: u32 = match reader.number(4, "array element type") {
        Ok(v) => v as u32,
        Err(err) => {
            return Err(err);
        },
    };
    let len: u64 = match reader.number(8, "array length") {
        Ok(len) => len,
        Err(err) => {
            return Err(err);
        },
    };
    if len > MAX_ARRAY_LEN {
        return Err(
            GgufError::Implausible { what: "array length", value: len, limit: MAX_ARRAY_LEN },
        );
    }
    Ok(OpenArray { element_type, len, done: 0, kept: Vec::new() })
}

/// How many values stand in a value, itself included.
spec fn weight(value: MetadataValue) -> nat
    decreases value,
{
    match value {
        MetadataValue::Array(items) => 1 + weight_of_all(items@),
        _ => 1,
    }
}

spec fn weight_of_all(values: Seq<MetadataValue>) -> nat
    decreases values,
{
    if values.len() == 0 {
        0
    } else {
        weight(values.last()) + weight_of_all(values.drop_last())
    }
}

proof fn weights_add_up(a: Seq<MetadataValue>, b: Seq<MetadataValue>)
    ensures
        weight_of_all(a + b) == weight_of_all(a) + weight_of_all(b),
    decreases b.len(),
{
    if b.len() == 0 {
        assert(a + b =~= a);
    } else {
        assert((a + b).drop_last() =~= a + b.drop_last());
        weights_add_up(a, b.drop_last());
    }
}

/// Takes values apart one after another, so that how deep they nest makes no
/// difference to the stack.
pub fn dismantle(values: &mut Vec<MetadataValue>)
    ensures
        final(values)@.len() == 0,
{
    while values.len() > 0
        invariant
            true,
        decreases weight_of_all(values@),
    {
        let ghost before = values@;
        if let Some(value) = values.pop() {
            proof {
                assert(values@ =~= before.drop_last());
                assert(weight_of_all(before) == weight(value) + weight_of_all(values@));
            }
            if let MetadataValue::Array(items) = value {
                let mut items = items;
                proof {
                    assert(weight(value) == 1 + weight_of_all(items@));
                    weights_add_up(values@, items@);
                }
                values.append(&mut items);
            }
        }
    }
}

/// One metadata entry.
#[derive(Debug, Clone, PartialEq)]
pub struct MetadataEntry {
    pub key: String,
    pub value: MetadataValue,
}

impl MetadataEntry {
    pub open spec fn view(&self) -> Pair {
        (self.key@, self.value@)
    }
}

/// What a list of entries holds.
pub open spec fn pairs(entries: Seq<MetadataEntry>) -> Seq<Pair> {
    entries.map_values(|e: MetadataEntry| e@)
}

/// What the parser extracted. Each key of the metadata stands once, and the entries
/// stand in the order of their keys.
#[derive(Debug, Clone, PartialEq)]
pub struct GgufHeader {
    pub version: u32,
    pub tensor_count: u64,
    pub metadata_count: u64,
    pub metadata: Vec<MetadataEntry>,
}

/// The text under a key.
pub open spec fn text_under(entries: Seq<Pair>, key: Seq<char>) -> Option<Seq<char>> {
    match lookup(entries, key) {
        Some(Value::Text(t)) => Some(t),
        _ => None,
    }
}

/// The unsigned integer under a key.
pub open spec fn number_under(entries: Seq<Pair>, key: Seq<char>) -> Option<u64> {
    match lookup(entries, key) {
        Some(value) => as_unsigned(value),
        None => None,
    }
}

/// The number under a key qualified by the container's architecture.
pub open spec fn architecture_number_of(entries: Seq<Pair>, suffix: Seq<char>) -> Option<u64> {
    match text_under(entries, "general.architecture"@) {
        Some(architecture) => number_under(entries, architecture + "."@ + suffix),
        None => None,
    }
}

/// Whether an entry is the last one with its key.
pub open spec fn is_last_under(entries: Seq<Pair>, key: Seq<char>, i: int) -> bool {
    &&& 0 <= i < entries.len()
    &&& entries[i].0 == key
    &&& forall|j: int| i < j < entries.len() ==> (#[trigger] entries[j]).0 != key
}

/// What stands last under a key is what is found there, and nothing is found under a
/// key that no entry has.
pub proof fn the_last_entry_of_a_key_is_found(entries: Seq<Pair>, key: Seq<char>)
    ensures
        forall|i: int| #[trigger]
            is_last_under(entries, key, i) ==> lookup(entries, key) == Some(entries[i].1),
        (forall|i: int| 0 <= i < entries.len() ==> (#[trigger] entries[i]).0 != key)
            ==> lookup(entries, key) is None,
        lookup(entries, key) is Some ==> exists|i: int| #[trigger] is_last_under(entries, key, i),
    decreases entries.len(),
{
    if entries.len() > 0 {
        let front = entries.drop_last();
        the_last_entry_of_a_key_is_found(front, key);
        let last = entries.len() - 1;
        if entries[last].0 == key {
            assert(is_last_under(entries, key, last));
        } else {
            assert forall|i: int| #[trigger] is_last_under(entries, key, i) implies lookup(
                entries,
                key,
            ) == Some(entries[i].1) by {
                assert(i < last);
                assert forall|j: int| i < j < front.len() implies (#[trigger] front[j]).0
                    != key by {
                    assert(entries[j].0 != key);
                }
                assert(is_last_under(front, key, i));
            }
            if lookup(entries, key) is Some {
                let i = choose|i: int| #[trigger] is_last_under(front, key, i);
                assert forall|j: int| i < j < entries.len() implies (#[trigger] entries[j]).0
                    != key by {
                    if j < last {
                        assert(front[j].0 != key);
                    }
                }
                assert(is_last_under(entries, key, i));
            }
            if forall|i: int| 0 <= i < entries.len() ==> (#[trigger] entries[i]).0 != key {
                assert forall|i: int| 0 <= i < front.len() implies (#[trigger] front[i]).0
                    != key by {
                    assert(entries[i].0 != key);
                }
            }
        }
    }
}

/// Whether a value is an integer of any of the eight types.
pub open spec fn is_integer(value: Value, n: int) -> bool {
    match value {
        Value::U8(v) => v == n,
        Value::I8(v) => v == n,
        Value::U16(v) => v == n,
        Value::I16(v) => v == n,
        Value::U32(v) => v == n,
        Value::I32(v) => v == n,
        Value::U64(v) => v == n,
        Value::I64(v) => v == n,
        _ => false,
    }
}

/// A value counts as a number exactly when it is an integer that is not negative, and
/// then as that integer, whichever type it has.
pub proof fn an_integer_counts_as_itself(value: Value, n: u64)
    ensures
        as_unsigned(value) == Some(n) <==> is_integer(value, n as int),
{
}

/// Whatever architecture a container declares, the numbers under its own keys are
/// found: where the last value under `general.architecture` is a text and the last one
/// under that text, a dot and a suffix is an integer that is not negative, that is the
/// number for the suffix. There is none where either is missing or of another kind.
pub proof fn any_architecture_has_its_numbers(
    entries: Seq<Pair>,
    architecture: Seq<char>,
    suffix: Seq<char>,
    n: u64,
    i: int,
    j: int,
)
    requires
        is_last_under(entries, "general.architecture"@, i),
        entries[i].1 == Value::Text(architecture),
    ensures
        is_last_under(entries, architecture + "."@ + suffix, j) ==> (architecture_number_of(
            entries,
            suffix,
        ) == Some(n) <==> is_integer(entries[j].1, n as int)),
        (forall|k: int|
            0 <= k < entries.len() ==> (#[trigger] entries[k]).0 != architecture + "."@ + suffix)
            ==> architecture_number_of(entries, suffix) is None,
{
    the_last_entry_of_a_key_is_found(entries, "general.architecture"@);
    the_last_entry_of_a_key_is_found(entries, architecture + "."@ + suffix);
    if is_last_under(entries, architecture + "."@ + suffix, j) {
        an_integer_counts_as_itself(entries[j].1, n);
    }
}

/// Without an architecture there is no number for any suffix: where no entry declares one,
/// or the last that does declares something else than a text.
pub proof fn without_an_architecture_there_are_no_numbers(
    entries: Seq<Pair>,
    suffix: Seq<char>,
    i: int,
)
    requires
        (forall|k: int|
            0 <= k < entries.len() ==> (#[trigger] entries[k]).0 != "general.architecture"@) || (
        is_last_under(entries, "general.architecture"@, i) && !(entries[i].1 is Text)),
    ensures
        architecture_number_of(entries, suffix) is None,
        text_under(entries, "general.architecture"@) is None,
{
    the_last_entry_of_a_key_is_found(entries, "general.architecture"@);
}

/// The text under a key is the last value there, where that is a text; the number the
/// last value there, where that is an integer that is not negative.
pub proof fn what_stands_under_a_key_is_given(
    entries: Seq<Pair>,
    key: Seq<char>,
    text: Seq<char>,
    n: u64,
    i: int,
)
    ensures
        is_last_under(entries, key, i) ==> {
            &&& text_under(entries, key) == Some(text) <==> entries[i].1 == Value::Text(text)
            &&& number_under(entries, key) == Some(n) <==> is_integer(entries[i].1, n as int)
        },
        (forall|k: int| 0 <= k < entries.len() ==> (#[trigger] entries[k]).0 != key)
            ==> text_under(entries, key) is None && number_under(entries, key) is None,
{
    the_last_entry_of_a_key_is_found(entries, key);
    if is_last_under(entries, key, i) {
        an_integer_counts_as_itself(entries[i].1, n);
    }
}

/// Whether an entry of a header is the last one with its key.
pub open spec fn stands_last(metadata: Seq<MetadataEntry>, key: Seq<char>, i: int) -> bool {
    &&& 0 <= i < metadata.len()
    &&& metadata[i].key@ == key
    &&& forall|j: int| i < j < metadata.len() ==> (#[trigger] metadata[j]).key@ != key
}

/// The last entry of a header with a key is the last of what the header says.
proof fn last_in_header(metadata: Seq<MetadataEntry>, key: Seq<char>, i: int)
    requires
        stands_last(metadata, key, i),
    ensures
        lookup(pairs(metadata), key) == Some(metadata[i].value@),
{
    let entries = pairs(metadata);
    assert forall|j: int| i < j < entries.len() implies (#[trigger] entries[j]).0 != key by {
        assert(metadata[j].key@ != key);
    }
    the_last_entry_of_a_key_is_found(entries, key);
    assert(is_last_under(entries, key, i));
}

impl GgufHeader {
    /// The entries by key.
    pub open spec fn pairs(&self) -> Seq<Pair> {
        pairs(self.metadata@)
    }

    /// A metadata value by key.
    pub fn get(&self, key: &str) -> (value: Option<&MetadataValue>)
        ensures
            match value {
                Some(v) => lookup(self.pairs(), key@) == Some(v@),
                None => lookup(self.pairs(), key@) is None,
            },
            match value {
                Some(v) => exists|i: int| #[trigger]
                    stands_last(self.metadata@, key@, i) && self.metadata@[i].value == *v,
                None => forall|i: int|
                    0 <= i < self.metadata@.len() ==> (#[trigger] self.metadata@[i]).key@ != key@,
            },
    {
        let mut i: usize = self.metadata.len();
        assert(self.pairs().take(i as int) =~= self.pairs());
        while i > 0
            invariant
                i <= self.metadata@.len(),
                forall|j: int|
                    i <= j < self.metadata@.len() ==> (#[trigger] self.metadata@[j]).key@ != key@,
                lookup(self.pairs(), key@) == lookup(self.pairs().take(i as int), key@),
            decreases i,
        {
            proof {
                assert(self.pairs().take(i as int).drop_last() =~= self.pairs().take(i - 1));
            }
            i = i - 1;
            if same_text(self.metadata[i].key.as_str(), key) {
                assert(stands_last(self.metadata@, key@, i as int));
                return Some(&self.metadata[i].value);
            }
        }
        None
    }

    /// A metadata value as text.
    pub fn text(&self, key: &str) -> (text: Option<&str>)
        ensures
            match text {
                Some(t) => text_under(self.pairs(), key@) == Some(t@),
                None => text_under(self.pairs(), key@) is None,
            },
            forall|i: int| #[trigger]
                stands_last(self.metadata@, key@, i) ==> match self.metadata@[i].value {
                    MetadataValue::String(t) => text is Some && text->0@ == t@,
                    _ => text is None,
                },
            (forall|i: int|
                0 <= i < self.metadata@.len() ==> (#[trigger] self.metadata@[i]).key@ != key@)
                ==> text is None,
    {
        match self.get(key) {
            Some(value) => value.as_str(),
            None => None,
        }
    }

    /// A metadata value as an unsigned integer.
    pub fn number(&self, key: &str) -> (number: Option<u64>)
        ensures
            number == number_under(self.pairs(), key@),
            forall|i: int| #[trigger]
                stands_last(self.metadata@, key@, i) ==> counts_as(
                    self.metadata@[i].value,
                    number,
                ),
            (forall|i: int|
                0 <= i < self.metadata@.len() ==> (#[trigger] self.metadata@[i]).key@ != key@)
                ==> number is None,
    {
        match self.get(key) {
            Some(value) => value.as_u64(),
            None => None,
        }
    }

    /// The model architecture, which names the family of the remaining keys.
    pub fn architecture(&self) -> (architecture: Option<&str>)
        ensures
            match architecture {
                Some(a) => text_under(self.pairs(), "general.architecture"@) == Some(a@),
                None => text_under(self.pairs(), "general.architecture"@) is None,
            },
            forall|i: int| #[trigger]
                stands_last(self.metadata@, "general.architecture"@, i)
                    ==> match self.metadata@[i].value {
                    MetadataValue::String(t) => architecture is Some && architecture->0@ == t@,
                    _ => architecture is None,
                },
            (forall|i: int|
                0 <= i < self.metadata@.len() ==> (#[trigger] self.metadata@[i]).key@
                    != "general.architecture"@) ==> architecture is None,
    {
        self.text("general.architecture")
    }

    /// The number under a key qualified by this container's architecture, such as
    /// `llama.context_length`. Without an architecture there is no such key.
    pub fn architecture_number(&self, suffix: &str) -> (number: Option<u64>)
        ensures
            number == architecture_number_of(self.pairs(), suffix@),
            forall|i: int, j: int|
                #![trigger self.metadata@[i], self.metadata@[j]]
                stands_last(self.metadata@, "general.architecture"@, i) && (
                self.metadata@[i].value matches MetadataValue::String(architecture)
                    && stands_last(self.metadata@, architecture@ + "."@ + suffix@, j))
                    ==> counts_as(self.metadata@[j].value, number),
            (forall|i: int|
                0 <= i < self.metadata@.len() ==> (#[trigger] self.metadata@[i]).key@
                    != "general.architecture"@) ==> number is None,
    {
        proof {
            assert forall|i: int|
                stands_last(self.metadata@, "general.architecture"@, i) implies text_under(
                self.pairs(),
                "general.architecture"@,
            ) == (match (#[trigger] self.metadata@[i]).value@ {
                Value::Text(t) => Some(t),
                _ => None,
            }) by {
                last_in_header(self.metadata@, "general.architecture"@, i);
            }
            assert forall|j: int, key: Seq<char>| #[trigger]
                stands_last(self.metadata@, key, j) implies counts_as(
                self.metadata@[j].value,
                number_under(self.pairs(), key),
            ) by {
                last_in_header(self.metadata@, key, j);
            }
        }
        match self.architecture() {
            None => None,
            Some(architecture) => {
                let mut key = architecture.to_owned();
                key.append(".");
                key.append(suffix);
                self.number(key.as_str())
            },
        }
    }
}

/// Takes the values of entries apart one after another, so that how deep they nest
/// makes no difference to the stack.
fn dismantle_entries(entries: &mut Vec<MetadataEntry>)
    ensures
        final(entries)@.len() == 0,
{
    while entries.len() > 0
        invariant
            true,
        decreases entries@.len(),
    {
        if let Some(entry) = entries.pop() {
            if let MetadataValue::Array(items) = entry.value {
                let mut items = items;
                dismantle(&mut items);
            }
        }
    }
}

impl GgufHeader {
    /// Takes the metadata apart one value after another. A header that may hold arrays
    /// nested very deep is given up in this way, since dropping it as it is takes a
    /// call for each level.
    pub fn dismantle(&mut self)
        ensures
            final(self).metadata@.len() == 0,
            final(self).version == old(self).version,
            final(self).tensor_count == old(self).tensor_count,
            final(self).metadata_count == old(self).metadata_count,
    {
        dismantle_entries(&mut self.metadata);
    }
}

/// Whether an index gives the position of every key.
spec fn indexes(index: Map<Seq<char>, usize>, entries: Seq<Pair>) -> bool {
    forall|key: Seq<char>|
        {
            &&& (#[trigger] index.contains_key(key) <==> position_of(entries, key) < entries.len())
            &&& (index.contains_key(key) ==> index[key] == position_of(entries, key))
        }
}

/// Adds an entry to the metadata, replacing the value of a key already there.
fn insert_entry(
    metadata: &mut Vec<MetadataEntry>,
    index: &mut StringHashMap<usize>,
    key: String,
    value: MetadataValue,
)
    requires
        indexes(old(index)@, pairs(old(metadata)@)),
    ensures
        pairs(final(metadata)@) == inserted(pairs(old(metadata)@), (key@, value@)),
        indexes(final(index)@, pairs(final(metadata)@)),
{
    let ghost before = pairs(metadata@);
    let ghost entry = (key@, value@);
    let known: Option<usize> = match index.get(key.as_str()) {
        Some(at) => Some(*at),
        None => None,
    };
    proof {
        position_bounds(before, key@);
        assert(index@.contains_key(key@) <==> position_of(before, key@) < before.len());
        assert forall|k: Seq<char>| true implies {
            let at = #[trigger] position_of(before, k);
            let after = inserted(before, entry);
            if k == entry.0 {
                position_of(after, k) == at && at < after.len()
            } else if at < before.len() {
                position_of(after, k) == at
            } else {
                position_of(after, k) == after.len()
            }
        } by {
            positions_after_insert(before, entry, k);
        }
    }
    match known {
        Some(at) => {
            let mut replaced: Vec<MetadataEntry> = Vec::new();
            replaced.push(MetadataEntry { key, value });
            core::mem::swap(&mut metadata[at], &mut replaced[0]);
            assert(pairs(metadata@) =~= inserted(before, entry));
            dismantle_entries(&mut replaced);
            assert forall|k: Seq<char>|
                {
                    &&& (#[trigger] index@.contains_key(k) <==> position_of(pairs(metadata@), k)
                        < pairs(metadata@).len())
                    &&& (index@.contains_key(k) ==> index@[k] == position_of(pairs(metadata@), k))
                } by {
                position_bounds(before, k);
                let _ = position_of(before, k);
            }
        },
        None => {
            let at: usize = metadata.len();
            index.insert(key.clone(), at);
            metadata.push(MetadataEntry { key, value });
            assert(pairs(metadata@) =~= inserted(before, entry));
            assert forall|k: Seq<char>|
                {
                    &&& (#[trigger] index@.contains_key(k) <==> position_of(pairs(metadata@), k)
                        < pairs(metadata@).len())
                    &&& (index@.contains_key(k) ==> index@[k] == position_of(pairs(metadata@), k))
                } by {
                position_bounds(before, k);
                assert(old(index)@.contains_key(k) <==> position_of(before, k) < before.len());
            }
        },
    }
}

/// Reads one metadata entry.
fn read_entry(reader: &mut Budgeted) -> (result: Result<(String, MetadataValue), GgufError>)
    requires
        old(reader).wf(),
    ensures
        match (result, entry_at(old(reader).source@, old(reader).at as int)) {
            (Ok((key, value)), Ok((expected, next))) => (key@, value@) == expected
                && final(reader).at == next && final(reader).follows(old(reader)),
            (Err(err), Err(fault)) => err@ == fault,
            _ => false,
        },
{
    proof {
        span_values();
    }
    let key = match reader.string("metadata key") {
        Ok(key) => key,
        Err(err) => {
            return Err(err);
        },
    };
    let type_id: u32 = match reader.number(4, "metadata value type") {
        Ok(v) => v as u32,
        Err(err) => {
            return Err(err);
        },
    };
    match read_value(reader, type_id) {
        Ok(value) => Ok((key, value)),
        Err(err) => Err(err),
    }
}

/// Parses a GGUF header and its metadata.
///
/// Only the header is consumed. The error says why a container was refused: it is
/// not GGUF, it declares an unsupported version, it is truncated, or it declares
/// sizes this parser will not honour.
pub fn parse(source: &[u8]) -> (result: Result<GgufHeader, GgufError>)
    ensures
        match (result, parsed(source@)) {
            (Ok(header), Ok(p)) => {
                &&& header.version == p.version
                &&& header.tensor_count == p.tensor_count
                &&& header.metadata_count == p.metadata_count
                &&& tabulates(header.pairs(), p.entries)
            },
            (Err(err), Err(fault)) => err@ == fault,
            _ => false,
        },
{
    proof {
        span_values();
    }
    let mut reader = Budgeted::new(source);
    let found = match reader.take(4, "magic", "magic") {
        Ok(found) => found,
        Err(err) => {
            return Err(err);
        },
    };
    if !(found[0] == 0x47 && found[1] == 0x47 && found[2] == 0x55 && found[3] == 0x46) {
        let found = [found[0], found[1], found[2], found[3]];
        assert(found@ =~= source@.subrange(0, 4));
        assert(magic()[0] == 0x47 && magic()[1] == 0x47 && magic()[2] == 0x55 && magic()[3]
            == 0x46);
        return Err(GgufError::NotGguf { found });
    }
    assert(found@ =~= magic());
    let version: u32 = match reader.number(4, "version") {
        Ok(v) => v as u32,
        Err(err) => {
            return Err(err);
        },
    };
    if version != 2 && version != 3 {
        return Err(GgufError::UnsupportedVersion { version });
    }
    let tensor_count: u64 = match reader.number(8, "tensor count") {
        Ok(v) => v,
        Err(err) => {
            return Err(err);
        },
    };
    if tensor_count > MAX_TENSOR_COUNT {
        return Err(
            GgufError::Implausible {
                what: "tensor count",
                value: tensor_count,
                limit: MAX_TENSOR_COUNT,
            },
        );
    }
    let metadata_count: u64 = match reader.number(8, "metadata count") {
        Ok(v) => v,
        Err(err) => {
            return Err(err);
        },
    };
    if metadata_count > MAX_METADATA_ENTRIES {
        return Err(
            GgufError::Implausible {
                what: "metadata count",
                value: metadata_count,
                limit: MAX_METADATA_ENTRIES,
            },
        );
    }
    match read_entries(&mut reader, metadata_count) {
        Ok(metadata) => Ok(GgufHeader { version, tensor_count, metadata_count, metadata }),
        Err(err) => Err(err),
    }
}

/// Parses a GGUF header from what could be read of a file: its beginning, and why
/// reading stopped if it failed there.
///
/// A failure matters only where the header goes on past it: what was read decides
/// otherwise.
pub fn parse_read(read: &[u8], failure: Option<String>) -> (result: Result<GgufHeader, GgufError>)
    ensures
        match (result, parsed_read(read@, opt_text(failure))) {
            (Ok(header), Ok(p)) => {
                &&& header.version == p.version
                &&& header.tensor_count == p.tensor_count
                &&& header.metadata_count == p.metadata_count
                &&& tabulates(header.pairs(), p.entries)
            },
            (Err(err), Err(fault)) => err@ == fault,
            _ => false,
        },
{
    match parse(read) {
        Err(GgufError::Truncated { what }) => match failure {
            Some(reason) => Err(GgufError::Io(reason)),
            None => Err(GgufError::Truncated { what }),
        },
        result => result,
    }
}

/// What the readable beginning of a file means as a GGUF header.
pub open spec fn parsed_read(read: Seq<u8>, failure: Option<Seq<char>>) -> Result<Parsed, Fault> {
    if is_truncated(parsed(read)) && failure is Some {
        Err(Fault::Io { reason: failure->0 })
    } else {
        parsed(read)
    }
}

/// A failure to read matters only where what was read before it does not decide: then it
/// is reported, and otherwise what was read means what it means without a failure.
pub proof fn a_failure_matters_only_where_the_header_goes_on(read: Seq<u8>, reason: Seq<char>)
    ensures
        parsed_read(read, None) == parsed(read),
        parsed(read) is Ok ==> parsed_read(read, Some(reason)) == parsed(read),
        !(parsed(read) matches Err(fault) && fault is Truncated) ==> parsed_read(read, Some(reason))
            == parsed(read),
        (parsed(read) matches Err(fault) && fault is Truncated) ==> parsed_read(read, Some(reason))
            == Err::<Parsed, Fault>(Fault::Io { reason }),
{
}

/// How much of a file is read at first.
pub const FIRST_READ: u64 = 0x1_0000;

/// How much of a file to read where `len` bytes of it did not settle what its header
/// means.
pub open spec fn next_read(len: int) -> int {
    if len < FIRST_READ {
        FIRST_READ as int
    } else if 4 * len < MAX_HEADER_BYTES {
        4 * len
    } else {
        MAX_HEADER_BYTES as int
    }
}

/// How many bytes of the beginning of a file to read, given what was read of it;
/// `None` where that settles what its header means, whatever follows.
pub fn wanted(read: &[u8]) -> (wanted: Option<u64>)
    ensures
        match wanted {
            None => settled(read@, parsed(read@)),
            Some(n) => !settled(read@, parsed(read@)) && n == next_read(read@.len() as int) && n
                > read@.len(),
        },
{
    if read.len() as u64 >= MAX_HEADER_BYTES {
        return None;
    }
    match parse(read) {
        Err(GgufError::Truncated { .. }) => {
            let len: u64 = read.len() as u64;
            if len < FIRST_READ {
                Some(FIRST_READ)
            } else if 4 * len < MAX_HEADER_BYTES {
                Some(4 * len)
            } else {
                Some(MAX_HEADER_BYTES)
            }
        },
        Err(_) => None,
        Ok(header) => {
            let mut header = header;
            header.dismantle();
            None
        },
    }
}

/// What was read of a file means what the whole file does, once no more is wanted.
pub proof fn what_is_wanted_is_enough(read: Seq<u8>, rest: Seq<u8>)
    requires
        settled(read, parsed(read)),
    ensures
        parsed(read + rest) == parsed(read),
{
    parsed_is_stable(read, rest);
}

/// More is wanted exactly while a header goes on past what was read and the budget is not
/// used up, and every read is larger than the one before and within the budget.
pub proof fn more_is_wanted_only_while_it_can_help(read: Seq<u8>)
    ensures
        settled(read, parsed(read)) <==> !is_truncated(parsed(read)) || read.len() >= 0x400_0000,
        read.len() < 0x400_0000 ==> read.len() < next_read(read.len() as int) <= 0x400_0000,
{
}

/// Reads the metadata entries of a header.
fn read_entries(reader: &mut Budgeted, count: u64) -> (result: Result<
    Vec<MetadataEntry>,
    GgufError,
>)
    requires
        old(reader).wf(),
    ensures
        match (result, entries_at(old(reader).source@, old(reader).at as int, count as nat)) {
            (Ok(metadata), Ok((entries, _))) => tabulates(pairs(metadata@), entries),
            (Err(err), Err(fault)) => err@ == fault,
            _ => false,
        },
{
    let mut metadata: Vec<MetadataEntry> = Vec::new();
    let mut index: StringHashMap<usize> = StringHashMap::new();
    let ghost start = *reader;
    let ghost bytes = reader.source@;
    let ghost mut seen: Seq<Pair> = Seq::empty();
    let mut done: u64 = 0;
    proof {
        assert(pairs(metadata@) =~= Seq::empty());
        match entries_at(bytes, start.at as int, count as nat) {
            Ok((rest, _)) => {
                assert(seen + rest =~= rest);
            },
            Err(_) => {},
        }
    }
    while done < count
        invariant
            done <= count,
            start == *old(reader),
            reader.follows(&start),
            bytes == start.source@,
            indexes(index@, pairs(metadata@)),
            pairs(metadata@) == merged(seen),
            entries_at(bytes, start.at as int, count as nat) == match entries_at(
                bytes,
                reader.at as int,
                (count - done) as nat,
            ) {
                Ok((rest, end)) => Ok((seen + rest, end)),
                Err(fault) => Err(fault),
            },
        decreases count - done,
    {
        match read_entry(reader) {
            Err(err) => {
                dismantle_entries(&mut metadata);
                return Err(err);
            },
            Ok((key, value)) => {
                let ghost entry = (key@, value@);
                proof {
                    match entries_at(bytes, reader.at as int, (count - done - 1) as nat) {
                        Ok((rest, _)) => {
                            assert(seen + (seq![entry] + rest) =~= seen.push(entry) + rest);
                        },
                        Err(_) => {},
                    }
                    assert(seen.push(entry).drop_last() =~= seen);
                    seen = seen.push(entry);
                }
                insert_entry(&mut metadata, &mut index, key, value);
                done = done + 1;
            },
        }
    }
    assert(seen + Seq::<Pair>::empty() =~= seen);
    let ghost gathered = pairs(metadata@);
    proof {
        merging_keeps_the_last_value(seen, Seq::empty());
    }
    let table = sorted(metadata, true);
    proof {
        assert forall|i: int, j: int| 0 <= i < j < pairs(table@).len() implies text_precedes(
            (#[trigger] pairs(table@)[i]).0,
            (#[trigger] pairs(table@)[j]).0,
        ) by {
            assert(comes_first(pairs(table@)[i].0, pairs(table@)[j].0, true));
        }
        ascending_keys_are_distinct(pairs(table@));
        assert forall|key: Seq<char>| #[trigger] lookup(pairs(table@), key) == lookup(
            seen,
            key,
        ) by {
            same_members_same_lookup(pairs(table@), gathered, key);
            merging_keeps_the_last_value(seen, key);
        }
    }
    Ok(table)
}

// Putting entries in the order of their keys.

/// Whether one key stands before another, upwards or downwards.
spec fn comes_first(a: Seq<char>, b: Seq<char>, up: bool) -> bool {
    if up {
        text_precedes(a, b)
    } else {
        text_precedes(b, a)
    }
}

/// Whether entries stand in the order of their keys, upwards or downwards.
spec fn ordered(entries: Seq<Pair>, up: bool) -> bool {
    forall|i: int, j: int|
        0 <= i < j < entries.len() ==> comes_first(
            (#[trigger] entries[i]).0,
            (#[trigger] entries[j]).0,
            up,
        )
}

/// Whether every entry of a list stands before a key.
spec fn all_before(entries: Seq<Pair>, key: Seq<char>, up: bool) -> bool {
    forall|i: int| 0 <= i < entries.len() ==> comes_first((#[trigger] entries[i]).0, key, up)
}

/// Whether every entry of one list stands before every entry of another.
spec fn lists_follow(first: Seq<Pair>, then: Seq<Pair>, up: bool) -> bool {
    forall|j: int| 0 <= j < then.len() ==> all_before(first, (#[trigger] then[j]).0, up)
}

/// Whether two lists have no key in common.
spec fn keys_are_disjoint(a: Seq<Pair>, b: Seq<Pair>) -> bool {
    forall|i: int, j: int|
        0 <= i < a.len() && 0 <= j < b.len() ==> (#[trigger] a[i]).0 != (#[trigger] b[j]).0
}

/// Sorts entries by key, upwards or downwards.
fn sorted(entries: Vec<MetadataEntry>, up: bool) -> (table: Vec<MetadataEntry>)
    requires
        keys_are_distinct(pairs(entries@)),
    ensures
        ordered(pairs(table@), up),
        forall|p: Pair| #[trigger]
            pairs(table@).contains(p) <==> pairs(entries@).contains(p),
    decreases entries@.len(),
{
    if entries.len() <= 1 {
        return entries;
    }
    let ghost whole = pairs(entries@);
    let half: usize = entries.len() / 2;
    let mut left = entries;
    let right = left.split_off(half);
    let ghost low = pairs(left@);
    let ghost high = pairs(right@);
    proof {
        assert(low =~= whole.take(half as int));
        assert(high =~= whole.skip(half as int));
        assert forall|p: Pair| #[trigger] whole.contains(p) <==> low.contains(p) || high.contains(
            p,
        ) by {
            if whole.contains(p) {
                let i = choose|i: int| 0 <= i < whole.len() && whole[i] == p;
                if i < half {
                    assert(low[i] == p);
                } else {
                    assert(high[i - half] == p);
                }
            }
            if low.contains(p) {
                let i = choose|i: int| 0 <= i < low.len() && low[i] == p;
                assert(whole[i] == p);
            }
            if high.contains(p) {
                let i = choose|i: int| 0 <= i < high.len() && high[i] == p;
                assert(whole[i + half] == p);
            }
        }
        assert forall|i: int, j: int| 0 <= i < j < low.len() implies (#[trigger] low[i]).0 != (
        #[trigger] low[j]).0 by {
            assert(whole[i].0 != whole[j].0);
        }
        assert forall|i: int, j: int| 0 <= i < j < high.len() implies (#[trigger] high[i]).0 != (
        #[trigger] high[j]).0 by {
            assert(whole[i + half].0 != whole[j + half].0);
        }
    }
    let a = sorted(left, !up);
    let b = sorted(right, !up);
    proof {
        let x = pairs(a@);
        let y = pairs(b@);
        assert forall|i: int, j: int| 0 <= i < x.len() && 0 <= j < y.len() implies (
        #[trigger] x[i]).0 != (#[trigger] y[j]).0 by {
            assert(x.contains(x[i]));
            assert(y.contains(y[j]));
            let m = choose|m: int| 0 <= m < low.len() && low[m] == x[i];
            let n = choose|n: int| 0 <= n < high.len() && high[n] == y[j];
            assert(whole[m].0 != whole[n + half].0);
        }
    }
    joined_in_order(a, b, up)
}

/// Whether two lists hold together what three others do.
spec fn all_are_kept(
    a: Seq<Pair>,
    b: Seq<Pair>,
    table: Seq<Pair>,
    x: Seq<Pair>,
    y: Seq<Pair>,
) -> bool {
    forall|p: Pair| #[trigger]
        a.contains(p) || b.contains(p) <==> table.contains(p) || x.contains(p) || y.contains(p)
}

/// Joins two lists that are sorted the other way round, taking from their ends.
fn joined_in_order(a: Vec<MetadataEntry>, b: Vec<MetadataEntry>, up: bool) -> (table: Vec<
    MetadataEntry,
>)
    requires
        ordered(pairs(a@), !up),
        ordered(pairs(b@), !up),
        keys_are_disjoint(pairs(a@), pairs(b@)),
    ensures
        ordered(pairs(table@), up),
        forall|p: Pair| #[trigger]
            pairs(table@).contains(p) <==> pairs(a@).contains(p) || pairs(b@).contains(p),
{
    let mut x = a;
    let mut y = b;
    let mut table: Vec<MetadataEntry> = Vec::new();
    proof {
        assert(pairs(table@) =~= Seq::empty());
    }
    while x.len() > 0 || y.len() > 0
        invariant
            ordered(pairs(x@), !up),
            ordered(pairs(y@), !up),
            keys_are_disjoint(pairs(x@), pairs(y@)),
            ordered(pairs(table@), up),
            lists_follow(pairs(table@), pairs(x@), up),
            lists_follow(pairs(table@), pairs(y@), up),
            all_are_kept(pairs(a@), pairs(b@), pairs(table@), pairs(x@), pairs(y@)),
        decreases x@.len() + y@.len(),
    {
        let from_x: bool = if x.len() == 0 {
            false
        } else if y.len() == 0 {
            true
        } else {
            let p = x[x.len() - 1].key.as_str();
            let q = y[y.len() - 1].key.as_str();
            if up {
                stands_before(p, q)
            } else {
                stands_before(q, p)
            }
        };
        let ghost xs = pairs(x@);
        let ghost ys = pairs(y@);
        let ghost done = pairs(table@);
        if from_x {
            if let Some(entry) = x.pop() {
                table.push(entry);
                proof {
                    assert(pairs(x@) =~= xs.drop_last());
                    assert(pairs(table@) =~= done.push(xs.last()));
                    taking_the_first_keeps_order(done, xs, ys, up);
                    assert(all_are_kept(
                        pairs(a@),
                        pairs(b@),
                        done.push(xs.last()),
                        pairs(x@),
                        pairs(y@),
                    )) by {
                        assert forall|p: Pair| #[trigger]
                            pairs(a@).contains(p) || pairs(b@).contains(p) <==> done.push(
                                xs.last(),
                            ).contains(p) || pairs(x@).contains(p) || pairs(y@).contains(p) by {
                            assert(done.push(xs.last()).contains(p) || xs.drop_last().contains(p)
                                <==> done.contains(p) || xs.contains(p));
                        }
                    }
                }
            }
        } else {
            if let Some(entry) = y.pop() {
                table.push(entry);
                proof {
                    assert(pairs(y@) =~= ys.drop_last());
                    assert(pairs(table@) =~= done.push(ys.last()));
                    if xs.len() > 0 {
                        assert(xs[xs.len() - 1].0 != ys[ys.len() - 1].0);
                        text_is_ordered(xs.last().0, ys.last().0, xs.last().0);
                    }
                    assert forall|i: int, j: int|
                        0 <= i < ys.len() && 0 <= j < xs.len() implies (#[trigger] ys[i]).0 != (
                    #[trigger] xs[j]).0 by {
                        assert(xs[j].0 != ys[i].0);
                    }
                    taking_the_first_keeps_order(done, ys, xs, up);
                    assert(all_are_kept(
                        pairs(a@),
                        pairs(b@),
                        done.push(ys.last()),
                        pairs(x@),
                        pairs(y@),
                    )) by {
                        assert forall|p: Pair| #[trigger]
                            pairs(a@).contains(p) || pairs(b@).contains(p) <==> done.push(
                                ys.last(),
                            ).contains(p) || pairs(x@).contains(p) || pairs(y@).contains(p) by {
                            assert(done.push(ys.last()).contains(p) || ys.drop_last().contains(p)
                                <==> done.contains(p) || ys.contains(p));
                        }
                    }
                }
            }
        }
    }
    proof {
        assert forall|p: Pair| #[trigger]
            pairs(table@).contains(p) <==> pairs(a@).contains(p) || pairs(b@).contains(p) by {
            assert(!pairs(x@).contains(p) && !pairs(y@).contains(p));
            let _ = pairs(a@).contains(p);
        }
    }
    table
}

/// Moving the end of `from`, which stands before the end of `other`, behind what is
/// done keeps everything in order and loses nothing.
proof fn taking_the_first_keeps_order(
    done: Seq<Pair>,
    from: Seq<Pair>,
    other: Seq<Pair>,
    up: bool,
)
    requires
        from.len() > 0,
        ordered(from, !up),
        ordered(other, !up),
        ordered(done, up),
        lists_follow(done, from, up),
        lists_follow(done, other, up),
        keys_are_disjoint(from, other),
        other.len() > 0 ==> comes_first(from.last().0, other.last().0, up),
    ensures
        ordered(from.drop_last(), !up),
        ordered(done.push(from.last()), up),
        lists_follow(done.push(from.last()), from.drop_last(), up),
        lists_follow(done.push(from.last()), other, up),
        keys_are_disjoint(from.drop_last(), other),
        keys_are_disjoint(other, from.drop_last()),
        forall|p: Pair|
            (#[trigger] done.push(from.last()).contains(p) || from.drop_last().contains(p))
                <==> done.contains(p) || from.contains(p),
{
    let end = from.len() - 1;
    let rest = from.drop_last();
    let after = done.push(from.last());
    assert forall|i: int, j: int| 0 <= i < j < rest.len() implies comes_first(
        (#[trigger] rest[i]).0,
        (#[trigger] rest[j]).0,
        !up,
    ) by {
        assert(comes_first(from[i].0, from[j].0, !up));
    }
    assert(all_before(done, from[end].0, up));
    assert forall|i: int, j: int| 0 <= i < j < after.len() implies comes_first(
        (#[trigger] after[i]).0,
        (#[trigger] after[j]).0,
        up,
    ) by {
        if j < done.len() {
            assert(comes_first(done[i].0, done[j].0, up));
        } else {
            assert(comes_first(done[i].0, from[end].0, up));
        }
    }
    assert forall|j: int| 0 <= j < rest.len() implies all_before(after, (#[trigger] rest[j]).0, up) by {
        assert(all_before(done, from[j].0, up));
        assert(comes_first(from[j].0, from[end].0, !up));
        assert forall|i: int| 0 <= i < after.len() implies comes_first(
            (#[trigger] after[i]).0,
            rest[j].0,
            up,
        ) by {
            if i < done.len() {
                assert(comes_first(done[i].0, from[j].0, up));
            }
        }
    }
    assert forall|j: int| 0 <= j < other.len() implies all_before(
        after,
        (#[trigger] other[j]).0,
        up,
    ) by {
        let last = other.len() - 1;
        assert(all_before(done, other[j].0, up));
        if j < last {
            assert(comes_first(other[j].0, other[last].0, !up));
            text_is_ordered(from.last().0, other[last].0, other[j].0);
            text_is_ordered(other[j].0, other[last].0, from.last().0);
        }
        assert forall|i: int| 0 <= i < after.len() implies comes_first(
            (#[trigger] after[i]).0,
            other[j].0,
            up,
        ) by {
            if i < done.len() {
                assert(comes_first(done[i].0, other[j].0, up));
            }
        }
    }
    assert forall|i: int, j: int| 0 <= i < rest.len() && 0 <= j < other.len() implies (
    #[trigger] rest[i]).0 != (#[trigger] other[j]).0 by {
        assert(from[i].0 != other[j].0);
    }
    assert forall|p: Pair|
        (#[trigger] after.contains(p) || rest.contains(p)) <==> done.contains(p) || from.contains(
            p,
        ) by {
        if after.contains(p) {
            let i = choose|i: int| 0 <= i < after.len() && after[i] == p;
            if i < done.len() {
                assert(done[i] == p);
            } else {
                assert(from[end] == p);
            }
        }
        if rest.contains(p) {
            let i = choose|i: int| 0 <= i < rest.len() && rest[i] == p;
            assert(from[i] == p);
        }
        if done.contains(p) {
            let i = choose|i: int| 0 <= i < done.len() && done[i] == p;
            assert(after[i] == p);
        }
        if from.contains(p) {
            let i = choose|i: int| 0 <= i < from.len() && from[i] == p;
            if i < end {
                assert(rest[i] == p);
            } else {
                assert(after[done.len() as int] == p);
            }
        }
    }
}

/// A fault tells what it is about, whole and in words that do not depend on it.
pub proof fn a_container_fault_tells_what_it_is_about(
    what: Seq<char>,
    other: Seq<char>,
    values: (int, int),
    limits: (int, int),
    numbers: (u32, u32),
    found: (Seq<u8>, Seq<u8>),
)
    ensures
        fault_message(Fault::Io { reason: what }) == fault_message(
            Fault::Io { reason: Seq::empty() },
        ) + what,
        fault_message(Fault::Truncated { what }) == fault_message(
            Fault::Truncated { what: Seq::empty() },
        ) + what,
        same_words(
            fault_message(Fault::Overflow { what }),
            what,
            fault_message(Fault::Overflow { what: other }),
            other,
        ),
        same_words(
            fault_message(Fault::InvalidText { key: what }),
            quoted_text(what),
            fault_message(Fault::InvalidText { key: other }),
            quoted_text(other),
        ),
        same_words(
            fault_message(Fault::NotGguf { found: found.0 }),
            quoted_text(replaced_text(found.0)),
            fault_message(Fault::NotGguf { found: found.1 }),
            quoted_text(replaced_text(found.1)),
        ),
        same_words(
            fault_message(Fault::UnsupportedVersion { version: numbers.0 }),
            decimal(numbers.0 as nat),
            fault_message(Fault::UnsupportedVersion { version: numbers.1 }),
            decimal(numbers.1 as nat),
        ),
        same_words(
            fault_message(Fault::UnknownValueType { type_id: numbers.0 }),
            decimal(numbers.0 as nat),
            fault_message(Fault::UnknownValueType { type_id: numbers.1 }),
            decimal(numbers.1 as nat),
        ),
        same_words(
            fault_message(Fault::Implausible { what, value: values.0, limit: limits.0 }),
            what,
            fault_message(Fault::Implausible { what: other, value: values.0, limit: limits.0 }),
            other,
        ),
        same_words(
            fault_message(Fault::Implausible { what, value: values.0, limit: limits.0 }),
            decimal(values.0 as nat),
            fault_message(Fault::Implausible { what, value: values.1, limit: limits.0 }),
            decimal(values.1 as nat),
        ),
        same_words(
            fault_message(Fault::Implausible { what, value: values.0, limit: limits.0 }),
            decimal(limits.0 as nat),
            fault_message(Fault::Implausible { what, value: values.0, limit: limits.1 }),
            decimal(limits.1 as nat),
        ),
{
    let none = Seq::<char>::empty();
    words_stay(
        "GGUF "@,
        what,
        other,
        " overflowed"@,
        fault_message(Fault::Overflow { what }),
        fault_message(Fault::Overflow { what: other }),
    );
    words_stay(
        "GGUF metadata key "@,
        quoted_text(what),
        quoted_text(other),
        " is not valid UTF-8"@,
        fault_message(Fault::InvalidText { key: what }),
        fault_message(Fault::InvalidText { key: other }),
    );
    let lead = "not a GGUF container: expected magic \"GGUF\", found "@;
    let text = fault_message(Fault::NotGguf { found: found.0 });
    let second = fault_message(Fault::NotGguf { found: found.1 });
    let shown = (quoted_text(replaced_text(found.0)), quoted_text(replaced_text(found.1)));
    assert(text =~= lead + shown.0 + none);
    assert(second =~= lead + shown.1 + none);
    words_stay(lead, shown.0, shown.1, none, text, second);
    words_stay(
        "GGUF version "@,
        decimal(numbers.0 as nat),
        decimal(numbers.1 as nat),
        " is not supported (supported: [2, 3])"@,
        fault_message(Fault::UnsupportedVersion { version: numbers.0 }),
        fault_message(Fault::UnsupportedVersion { version: numbers.1 }),
    );
    words_stay(
        "GGUF metadata value type "@,
        decimal(numbers.0 as nat),
        decimal(numbers.1 as nat),
        " is not recognised"@,
        fault_message(Fault::UnknownValueType { type_id: numbers.0 }),
        fault_message(Fault::UnknownValueType { type_id: numbers.1 }),
    );
    let text = fault_message(Fault::Implausible { what, value: values.0, limit: limits.0 });
    let of = " of "@;
    let exceeds = " exceeds the limit of "@;
    let v = decimal(values.0 as nat);
    let l = decimal(limits.0 as nat);
    let behind = of + v + exceeds + l;
    let second = fault_message(Fault::Implausible { what: other, value: values.0, limit: limits.0 });
    assert(text =~= "GGUF "@ + what + behind);
    assert(second =~= "GGUF "@ + other + behind);
    words_stay("GGUF "@, what, other, behind, text, second);
    let before = "GGUF "@ + what + of;
    let second = fault_message(Fault::Implausible { what, value: values.1, limit: limits.0 });
    assert(text =~= before + v + (exceeds + l));
    assert(second =~= before + decimal(values.1 as nat) + (exceeds + l));
    words_stay(before, v, decimal(values.1 as nat), exceeds + l, text, second);
    let before = "GGUF "@ + what + of + v + exceeds;
    let second = fault_message(Fault::Implausible { what, value: values.0, limit: limits.1 });
    assert(text =~= before + l + none);
    assert(second =~= before + decimal(limits.1 as nat) + none);
    words_stay(before, l, decimal(limits.1 as nat), none, text, second);
}

} // verus!
