//! What is written into a container is what is read out of it.
//!
//! A container is a sequence of [`Source`] values under keys. [`written_header`] says
//! which bytes a writer puts down for them, without reference to how they are read, and
//! [`what_is_written_reads_back`] that reading those bytes gives every key and value
//! again, whatever follows them in the file.

use vstd::prelude::*;
use vstd::string::*;
use vstd::utf8::*;

use crate::registry::gguf::{
    elements_at, entries_at, entry_at, le_value, number_at, parsed, string_at, value_at, Fault,
    Pair, Parsed, Value,
};

verus! {

/// A value as a writer has it. Floating-point values are held by their bits, and a truth
/// value by its byte: any that is not zero is written for one that holds.
pub enum Source {
    U8(u8),
    I8(i8),
    U16(u16),
    I16(i16),
    U32(u32),
    I32(i32),
    F32(u32),
    Bool(u8),
    Text(Seq<char>),
    Array { element_type: u32, items: Seq<Source> },
    U64(u64),
    I64(i64),
    F64(u64),
}

/// The number a container gives a value's type.
pub open spec fn type_number(source: Source) -> u32 {
    match source {
        Source::U8(_) => 0,
        Source::I8(_) => 1,
        Source::U16(_) => 2,
        Source::I16(_) => 3,
        Source::U32(_) => 4,
        Source::I32(_) => 5,
        Source::F32(_) => 6,
        Source::Bool(_) => 7,
        Source::Text(_) => 8,
        Source::Array { .. } => 9,
        Source::U64(_) => 10,
        Source::I64(_) => 11,
        Source::F64(_) => 12,
    }
}

/// A number in `n` bytes, the lowest first. A number below zero is written as its two's
/// complement.
pub open spec fn le_bytes(v: int, n: nat) -> Seq<u8>
    decreases n,
{
    if n == 0 {
        Seq::empty()
    } else {
        seq![(v % 256) as u8] + le_bytes(v / 256, (n - 1) as nat)
    }
}

/// A text: how many bytes it takes, and the bytes.
pub open spec fn written_text(text: Seq<char>) -> Seq<u8> {
    le_bytes(encode_utf8(text).len() as int, 8) + encode_utf8(text)
}

/// The bytes of a value.
pub open spec fn written(source: Source) -> Seq<u8>
    decreases source,
{
    match source {
        Source::U8(v) => le_bytes(v as int, 1),
        Source::I8(v) => le_bytes(v as int, 1),
        Source::U16(v) => le_bytes(v as int, 2),
        Source::I16(v) => le_bytes(v as int, 2),
        Source::U32(v) => le_bytes(v as int, 4),
        Source::I32(v) => le_bytes(v as int, 4),
        Source::F32(v) => le_bytes(v as int, 4),
        Source::Bool(v) => le_bytes(v as int, 1),
        Source::Text(text) => written_text(text),
        Source::Array { element_type, items } => le_bytes(element_type as int, 4) + le_bytes(
            items.len() as int,
            8,
        ) + written_all(items),
        Source::U64(v) => le_bytes(v as int, 8),
        Source::I64(v) => le_bytes(v as int, 8),
        Source::F64(v) => le_bytes(v as int, 8),
    }
}

/// The bytes of values, one after another.
pub open spec fn written_all(items: Seq<Source>) -> Seq<u8>
    decreases items,
{
    if items.len() == 0 {
        Seq::empty()
    } else {
        written(items[0]) + written_all(items.drop_first())
    }
}

/// Whether a value is one that a container may hold: no text or array is longer than it
/// may be, and the items of an array are of its type.
pub open spec fn is_writable(source: Source) -> bool
    decreases source,
{
    match source {
        Source::Text(text) => encode_utf8(text).len() <= 0x100_0000,
        Source::Array { element_type, items } => items.len() <= 0x100_0000 && forall|i: int|
            0 <= i < items.len() ==> type_number(#[trigger] items[i]) == element_type
                && is_writable(items[i]),
        _ => true,
    }
}

/// What is kept of a value: the value itself, but of an array longer than what is
/// retained only its type and length.
pub open spec fn kept(source: Source) -> Value
    decreases source,
{
    match source {
        Source::U8(v) => Value::U8(v),
        Source::I8(v) => Value::I8(v),
        Source::U16(v) => Value::U16(v),
        Source::I16(v) => Value::I16(v),
        Source::U32(v) => Value::U32(v),
        Source::I32(v) => Value::I32(v),
        Source::F32(v) => Value::F32(v),
        Source::Bool(v) => Value::Bool(v > 0),
        Source::Text(text) => Value::Text(text),
        Source::Array { element_type, items } => if items.len() <= 64 {
            Value::Array(kept_all(items))
        } else {
            Value::LargeArray { element_type, len: items.len() as u64 }
        },
        Source::U64(v) => Value::U64(v),
        Source::I64(v) => Value::I64(v),
        Source::F64(v) => Value::F64(v),
    }
}

/// What is kept of values, one after another.
pub open spec fn kept_all(items: Seq<Source>) -> Seq<Value>
    decreases items,
{
    if items.len() == 0 {
        Seq::empty()
    } else {
        seq![kept(items[0])] + kept_all(items.drop_first())
    }
}

/// Whether bytes stand at a place of others.
pub open spec fn stands_at(bytes: Seq<u8>, at: int, piece: Seq<u8>) -> bool {
    &&& 0 <= at
    &&& at + piece.len() <= bytes.len()
    &&& bytes.subrange(at, at + piece.len()) == piece
}

proof fn pieces_stand(bytes: Seq<u8>, at: int, a: Seq<u8>, b: Seq<u8>)
    requires
        stands_at(bytes, at, a + b),
    ensures
        stands_at(bytes, at, a),
        stands_at(bytes, at + a.len(), b),
{
    let whole = bytes.subrange(at, at + a.len() + b.len());
    assert(bytes.subrange(at, at + a.len()) =~= whole.take(a.len() as int));
    assert((a + b).take(a.len() as int) =~= a);
    assert(bytes.subrange(at + a.len(), at + a.len() + b.len()) =~= whole.skip(a.len() as int));
    assert((a + b).skip(a.len() as int) =~= b);
}

/// 256 to the power `n`.
pub open spec fn reach(n: nat) -> int
    decreases n,
{
    if n == 0 {
        1
    } else {
        256 * reach((n - 1) as nat)
    }
}

proof fn reaches()
    ensures
        reach(1) == 0x100,
        reach(2) == 0x1_0000,
        reach(4) == 0x1_0000_0000,
        reach(8) == 0x1_0000_0000_0000_0000,
{
    reveal_with_fuel(reach, 9);
}

/// A number that was written in little-endian bytes is what they are worth, up to whole
/// turns of their reach.
proof fn bytes_are_worth_their_number(v: int, n: nat)
    ensures
        le_bytes(v, n).len() == n,
        0 <= le_value(le_bytes(v, n)) < reach(n),
        0 <= v < reach(n) ==> le_value(le_bytes(v, n)) == v,
        -reach(n) <= v < 0 ==> le_value(le_bytes(v, n)) == v + reach(n),
    decreases n,
{
    if n > 0 {
        let low = (v % 256) as u8;
        let rest = le_bytes(v / 256, (n - 1) as nat);
        bytes_are_worth_their_number(v / 256, (n - 1) as nat);
        assert((seq![low] + rest).drop_first() =~= rest);
        assert(v == 256 * (v / 256) + v % 256);
    }
}

/// A number that stands at a place is read there.
proof fn a_number_is_read(bytes: Seq<u8>, at: int, v: int, n: nat, what: Seq<char>)
    requires
        stands_at(bytes, at, le_bytes(v, n)),
        at + n <= 0x400_0000,
        -reach(n) <= v < reach(n),
    ensures
        number_at(bytes, at, n as int, what) == Ok::<_, Fault>(
            (
                if v < 0 {
                    v + reach(n)
                } else {
                    v
                },
                at + n,
            ),
        ),
{
    bytes_are_worth_their_number(v, n);
}

/// A text that stands at a place is read there.
proof fn a_text_is_read(bytes: Seq<u8>, at: int, text: Seq<char>, what: Seq<char>)
    requires
        stands_at(bytes, at, written_text(text)),
        at + written_text(text).len() <= 0x400_0000,
        encode_utf8(text).len() <= 0x100_0000,
    ensures
        string_at(bytes, at, what) == Ok::<_, Fault>(
            (text, at + written_text(text).len()),
        ),
{
    let raw = encode_utf8(text);
    let head = le_bytes(raw.len() as int, 8);
    reaches();
    bytes_are_worth_their_number(raw.len() as int, 8);
    pieces_stand(bytes, at, head, raw);
    a_number_is_read(bytes, at, raw.len() as int, 8, what);
    encode_utf8_valid_utf8(text);
    encode_utf8_decode_utf8(text);
}

/// A value that stands at a place is read there.
proof fn a_value_is_read(bytes: Seq<u8>, at: int, source: Source)
    requires
        is_writable(source),
        stands_at(bytes, at, written(source)),
        at + written(source).len() <= 0x400_0000,
    ensures
        written(source).len() > 0,
        value_at(bytes, at, type_number(source)) == Ok::<_, Fault>(
            (kept(source), at + written(source).len()),
        ),
    decreases source,
{
    reaches();
    match source {
        Source::U8(v) => {
            bytes_are_worth_their_number(v as int, 1);
            a_number_is_read(bytes, at, v as int, 1, "uint8"@);
        },
        Source::I8(v) => {
            bytes_are_worth_their_number(v as int, 1);
            a_number_is_read(bytes, at, v as int, 1, "int8"@);
        },
        Source::U16(v) => {
            bytes_are_worth_their_number(v as int, 2);
            a_number_is_read(bytes, at, v as int, 2, "uint16"@);
        },
        Source::I16(v) => {
            bytes_are_worth_their_number(v as int, 2);
            a_number_is_read(bytes, at, v as int, 2, "int16"@);
        },
        Source::U32(v) => {
            bytes_are_worth_their_number(v as int, 4);
            a_number_is_read(bytes, at, v as int, 4, "uint32"@);
        },
        Source::I32(v) => {
            bytes_are_worth_their_number(v as int, 4);
            a_number_is_read(bytes, at, v as int, 4, "int32"@);
        },
        Source::F32(v) => {
            bytes_are_worth_their_number(v as int, 4);
            a_number_is_read(bytes, at, v as int, 4, "float32"@);
        },
        Source::Bool(v) => {
            bytes_are_worth_their_number(v as int, 1);
            a_number_is_read(bytes, at, v as int, 1, "bool"@);
        },
        Source::Text(text) => {
            bytes_are_worth_their_number(encode_utf8(text).len() as int, 8);
            a_text_is_read(bytes, at, text, "string"@);
        },
        Source::Array { element_type, items } => {
            let kind = le_bytes(element_type as int, 4);
            let count = le_bytes(items.len() as int, 8);
            let rest = written_all(items);
            bytes_are_worth_their_number(element_type as int, 4);
            bytes_are_worth_their_number(items.len() as int, 8);
            pieces_stand(bytes, at, kind + count, rest);
            pieces_stand(bytes, at, kind, count);
            a_number_is_read(bytes, at, element_type as int, 4, "array element type"@);
            a_number_is_read(bytes, at + 4, items.len() as int, 8, "array length"@);
            values_are_read(bytes, at + 12, element_type, items);
            assert(number_at(bytes, at, 4, "array element type"@)->Ok_0.0 as u32 == element_type);
        },
        Source::U64(v) => {
            bytes_are_worth_their_number(v as int, 8);
            a_number_is_read(bytes, at, v as int, 8, "uint64"@);
        },
        Source::I64(v) => {
            bytes_are_worth_their_number(v as int, 8);
            a_number_is_read(bytes, at, v as int, 8, "int64"@);
        },
        Source::F64(v) => {
            bytes_are_worth_their_number(v as int, 8);
            a_number_is_read(bytes, at, v as int, 8, "float64"@);
        },
    }
}

/// Values that stand at a place one after another are read there.
proof fn values_are_read(bytes: Seq<u8>, at: int, element_type: u32, items: Seq<Source>)
    requires
        forall|i: int|
            0 <= i < items.len() ==> type_number(#[trigger] items[i]) == element_type
                && is_writable(items[i]),
        stands_at(bytes, at, written_all(items)),
        at + written_all(items).len() <= 0x400_0000,
    ensures
        kept_all(items).len() == items.len(),
        elements_at(bytes, at, element_type, items.len()) == Ok::<_, Fault>(
            (kept_all(items), at + written_all(items).len()),
        ),
    decreases items,
{
    if items.len() > 0 {
        let first = items[0];
        let rest = items.drop_first();
        pieces_stand(bytes, at, written(first), written_all(rest));
        assert(type_number(items[0]) == element_type);
        a_value_is_read(bytes, at, first);
        assert forall|i: int| 0 <= i < rest.len() implies type_number(#[trigger] rest[i])
            == element_type && is_writable(rest[i]) by {
            assert(rest[i] == items[i + 1]);
        }
        values_are_read(bytes, at + written(first).len(), element_type, rest);
    }
}

/// A key and a value under it.
pub type Entry = (Seq<char>, Source);

/// The bytes of an entry: its key, the type of its value, and the value.
pub open spec fn written_entry(entry: Entry) -> Seq<u8> {
    written_text(entry.0) + le_bytes(type_number(entry.1) as int, 4) + written(entry.1)
}

/// The bytes of entries, one after another.
pub open spec fn written_entries(entries: Seq<Entry>) -> Seq<u8>
    decreases entries.len(),
{
    if entries.len() == 0 {
        Seq::empty()
    } else {
        written_entry(entries[0]) + written_entries(entries.drop_first())
    }
}

/// The bytes of a header: `GGUF`, the version, the two counts, and the entries.
pub open spec fn written_header(version: u32, tensor_count: int, entries: Seq<Entry>) -> Seq<u8> {
    seq![71u8, 71u8, 85u8, 70u8] + le_bytes(version as int, 4) + le_bytes(tensor_count, 8)
        + le_bytes(entries.len() as int, 8) + written_entries(entries)
}

/// What is kept of entries: each key with what is kept of its value.
pub open spec fn kept_entries(entries: Seq<Entry>) -> Seq<Pair> {
    entries.map_values(|e: Entry| (e.0, kept(e.1)))
}

/// An entry that stands at a place is read there.
proof fn an_entry_is_read(bytes: Seq<u8>, at: int, entry: Entry)
    requires
        encode_utf8(entry.0).len() <= 0x100_0000,
        is_writable(entry.1),
        stands_at(bytes, at, written_entry(entry)),
        at + written_entry(entry).len() <= 0x400_0000,
    ensures
        entry_at(bytes, at) == Ok::<_, Fault>(
            ((entry.0, kept(entry.1)), at + written_entry(entry).len()),
        ),
{
    let (key, value) = entry;
    let kind = le_bytes(type_number(value) as int, 4);
    reaches();
    bytes_are_worth_their_number(type_number(value) as int, 4);
    pieces_stand(bytes, at, written_text(key) + kind, written(value));
    pieces_stand(bytes, at, written_text(key), kind);
    a_text_is_read(bytes, at, key, "metadata key"@);
    let typed = at + written_text(key).len();
    a_number_is_read(bytes, typed, type_number(value) as int, 4, "metadata value type"@);
    a_value_is_read(bytes, typed + 4, value);
}

proof fn entries_are_read(bytes: Seq<u8>, at: int, entries: Seq<Entry>)
    requires
        forall|i: int|
            0 <= i < entries.len() ==> encode_utf8((#[trigger] entries[i]).0).len()
                <= 0x100_0000 && is_writable(entries[i].1),
        stands_at(bytes, at, written_entries(entries)),
        at + written_entries(entries).len() <= 0x400_0000,
    ensures
        entries_at(bytes, at, entries.len()) == Ok::<_, Fault>(
            (kept_entries(entries), at + written_entries(entries).len()),
        ),
    decreases entries.len(),
{
    if entries.len() == 0 {
        assert(kept_entries(entries) =~= Seq::empty());
    } else {
        let (key, value) = entries[0];
        let rest = entries.drop_first();
        pieces_stand(bytes, at, written_entry(entries[0]), written_entries(rest));
        assert(encode_utf8(entries[0].0).len() <= 0x100_0000);
        an_entry_is_read(bytes, at, entries[0]);
        assert forall|i: int| 0 <= i < rest.len() implies encode_utf8(
            (#[trigger] rest[i]).0,
        ).len() <= 0x100_0000 && is_writable(rest[i].1) by {
            assert(rest[i] == entries[i + 1]);
        }
        entries_are_read(bytes, at + written_entry(entries[0]).len(), rest);
        assert(seq![(key, kept(value))] + kept_entries(rest) =~= kept_entries(entries));
    }
}

/// A header that was written reads back: its version, its counts, and every key with
/// its value in the order in which they were written, whatever follows the header.
pub proof fn what_is_written_reads_back(
    version: u32,
    tensor_count: int,
    entries: Seq<Entry>,
    rest: Seq<u8>,
)
    requires
        version == 2 || version == 3,
        0 <= tensor_count <= 0x100_0000,
        entries.len() <= 0x10_0000,
        forall|i: int|
            0 <= i < entries.len() ==> encode_utf8((#[trigger] entries[i]).0).len()
                <= 0x100_0000 && is_writable(entries[i].1),
        written_header(version, tensor_count, entries).len() <= 0x400_0000,
    ensures
        parsed(written_header(version, tensor_count, entries) + rest) == Ok::<
            Parsed,
            Fault,
        >(
            Parsed {
                version,
                tensor_count,
                metadata_count: entries.len() as int,
                entries: kept_entries(entries),
                end: written_header(version, tensor_count, entries).len() as int,
            },
        ),
{
    let bytes = written_header(version, tensor_count, entries) + rest;
    let magic = seq![71u8, 71u8, 85u8, 70u8];
    let a = le_bytes(version as int, 4);
    let b = le_bytes(tensor_count, 8);
    let c = le_bytes(entries.len() as int, 8);
    let d = written_entries(entries);
    reaches();
    bytes_are_worth_their_number(version as int, 4);
    bytes_are_worth_their_number(tensor_count, 8);
    bytes_are_worth_their_number(entries.len() as int, 8);
    assert(bytes.subrange(0, (magic + a + b + c + d).len() as int) =~= magic + a + b + c + d);
    pieces_stand(bytes, 0, magic + a + b + c, d);
    pieces_stand(bytes, 0, magic + a + b, c);
    pieces_stand(bytes, 0, magic + a, b);
    pieces_stand(bytes, 0, magic, a);
    a_number_is_read(bytes, 4, version as int, 4, "version"@);
    a_number_is_read(bytes, 8, tensor_count, 8, "tensor count"@);
    a_number_is_read(bytes, 16, entries.len() as int, 8, "metadata count"@);
    entries_are_read(bytes, 24, entries);
    assert(bytes.subrange(0, 4) =~= magic);
}

/// What begins with something else than `GGUF` is refused with what it begins with, and
/// what declares a version or a count that is not read with what it declares, whatever
/// follows.
pub proof fn what_is_no_container_is_refused(
    found: Seq<u8>,
    version: u32,
    tensor_count: u64,
    metadata_count: u64,
    rest: Seq<u8>,
)
    requires
        found.len() == 4,
    ensures
        ({
            let magic = seq![71u8, 71u8, 85u8, 70u8];
            let head = magic + le_bytes(version as int, 4);
            let tensors = head + le_bytes(tensor_count as int, 8);
            let counts = tensors + le_bytes(metadata_count as int, 8);
            let known = version == 2 || version == 3;
            &&& found != magic ==> parsed(found + rest) == Err::<Parsed, Fault>(
                Fault::NotGguf { found },
            )
            &&& !known ==> parsed(head + rest) == Err::<Parsed, Fault>(
                Fault::UnsupportedVersion { version },
            )
            &&& known && tensor_count > 0x100_0000 ==> parsed(tensors + rest) == Err::<
                Parsed,
                Fault,
            >(
                Fault::Implausible {
                    what: "tensor count"@,
                    value: tensor_count as int,
                    limit: 0x100_0000,
                },
            )
            &&& known && tensor_count <= 0x100_0000 && metadata_count > 0x10_0000 ==> parsed(
                counts + rest,
            ) == Err::<Parsed, Fault>(
                Fault::Implausible {
                    what: "metadata count"@,
                    value: metadata_count as int,
                    limit: 0x10_0000,
                },
            )
        }),
{
    let magic = seq![71u8, 71u8, 85u8, 70u8];
    let a = le_bytes(version as int, 4);
    let b = le_bytes(tensor_count as int, 8);
    let c = le_bytes(metadata_count as int, 8);
    reaches();
    bytes_are_worth_their_number(version as int, 4);
    bytes_are_worth_their_number(tensor_count as int, 8);
    bytes_are_worth_their_number(metadata_count as int, 8);
    assert((found + rest).subrange(0, 4) =~= found);
    let head = magic + a + rest;
    assert(head.subrange(0, 4) =~= magic);
    assert(head.subrange(4, 8) =~= a);
    a_number_is_read(head, 4, version as int, 4, "version"@);
    let tensors = magic + a + b + rest;
    assert(tensors.subrange(0, 4) =~= magic);
    assert(tensors.subrange(4, 8) =~= a);
    assert(tensors.subrange(8, 16) =~= b);
    a_number_is_read(tensors, 4, version as int, 4, "version"@);
    a_number_is_read(tensors, 8, tensor_count as int, 8, "tensor count"@);
    let counts = magic + a + b + c + rest;
    assert(counts.subrange(0, 4) =~= magic);
    assert(counts.subrange(4, 8) =~= a);
    assert(counts.subrange(8, 16) =~= b);
    assert(counts.subrange(16, 24) =~= c);
    a_number_is_read(counts, 4, version as int, 4, "version"@);
    a_number_is_read(counts, 8, tensor_count as int, 8, "tensor count"@);
    a_number_is_read(counts, 16, metadata_count as int, 8, "metadata count"@);
}

/// Entries that are followed by one that cannot be read cannot be read, for its reason.
proof fn one_bad_entry_fails_all(bytes: Seq<u8>, at: int, good: Seq<Entry>, more: nat, fault: Fault)
    requires
        forall|i: int|
            0 <= i < good.len() ==> encode_utf8((#[trigger] good[i]).0).len() <= 0x100_0000
                && is_writable(good[i].1),
        stands_at(bytes, at, written_entries(good)),
        at + written_entries(good).len() <= 0x400_0000,
        entry_at(bytes, at + written_entries(good).len()) == Err::<(Pair, int), Fault>(fault),
        more > 0,
    ensures
        entries_at(bytes, at, good.len() + more) == Err::<(Seq<Pair>, int), Fault>(fault),
    decreases good.len(),
{
    if good.len() > 0 {
        let rest = good.drop_first();
        let size = written_entry(good[0]).len();
        pieces_stand(bytes, at, written_entry(good[0]), written_entries(rest));
        assert(encode_utf8(good[0].0).len() <= 0x100_0000);
        an_entry_is_read(bytes, at, good[0]);
        assert forall|i: int| 0 <= i < rest.len() implies encode_utf8(
            (#[trigger] rest[i]).0,
        ).len() <= 0x100_0000 && is_writable(rest[i].1) by {
            assert(rest[i] == good[i + 1]);
        }
        one_bad_entry_fails_all(bytes, at + size, rest, more, fault);
        assert((good.len() + more - 1) as nat == rest.len() + more);
    }
}

/// A way in which an entry can be such that it cannot be read.
pub enum Damage {
    /// The key is declared longer than a text may be.
    KeyLength(u64),
    /// The bytes of the key are no text.
    KeyBytes(Seq<u8>),
    /// The type of the value is none that there is.
    Kind { key: Seq<char>, type_id: u32 },
    /// A text is declared longer than one may be.
    TextLength { key: Seq<char>, len: u64 },
    /// The bytes of a text are none.
    TextBytes { key: Seq<char>, raw: Seq<u8> },
    /// An array is declared longer than one may be.
    ArrayLength { key: Seq<char>, element_type: u32, len: u64 },
    /// The type of an array's elements is none that there is.
    ElementKind { key: Seq<char>, element_type: u32, len: u64 },
}

/// The bytes of an entry that cannot be read, as far as they matter.
pub open spec fn damaged(damage: Damage) -> Seq<u8> {
    match damage {
        Damage::KeyLength(len) => le_bytes(len as int, 8),
        Damage::KeyBytes(raw) => le_bytes(raw.len() as int, 8) + raw,
        Damage::Kind { key, type_id } => written_text(key) + le_bytes(type_id as int, 4),
        Damage::TextLength { key, len } => written_text(key) + le_bytes(8, 4) + le_bytes(
            len as int,
            8,
        ),
        Damage::TextBytes { key, raw } => written_text(key) + le_bytes(8, 4) + (le_bytes(
            raw.len() as int,
            8,
        ) + raw),
        Damage::ArrayLength { key, element_type, len } => written_text(key) + le_bytes(9, 4) + (
        le_bytes(element_type as int, 4) + le_bytes(len as int, 8)),
        Damage::ElementKind { key, element_type, len } => written_text(key) + le_bytes(9, 4) + (
        le_bytes(element_type as int, 4) + le_bytes(len as int, 8)),
    }
}

/// Whether an entry cannot be read for this reason and no earlier one.
pub open spec fn is_damage(damage: Damage) -> bool {
    match damage {
        Damage::KeyLength(len) => len > 0x100_0000,
        Damage::KeyBytes(raw) => raw.len() <= 0x100_0000 && !valid_utf8(raw),
        Damage::Kind { key, type_id } => encode_utf8(key).len() <= 0x100_0000 && type_id > 12,
        Damage::TextLength { key, len } => encode_utf8(key).len() <= 0x100_0000 && len
            > 0x100_0000,
        Damage::TextBytes { key, raw } => encode_utf8(key).len() <= 0x100_0000 && raw.len()
            <= 0x100_0000 && !valid_utf8(raw),
        Damage::ArrayLength { key, len, .. } => encode_utf8(key).len() <= 0x100_0000 && len
            > 0x100_0000,
        Damage::ElementKind { key, element_type, len } => encode_utf8(key).len() <= 0x100_0000
            && element_type > 12 && 0 < len <= 0x100_0000,
    }
}

/// What an entry that cannot be read is refused for.
pub open spec fn blamed(damage: Damage) -> Fault {
    match damage {
        Damage::KeyLength(len) => Fault::Implausible {
            what: "string length"@,
            value: len as int,
            limit: 0x100_0000,
        },
        Damage::KeyBytes(_) => Fault::InvalidText { key: "metadata key"@ },
        Damage::Kind { type_id, .. } => Fault::UnknownValueType { type_id },
        Damage::TextLength { len, .. } => Fault::Implausible {
            what: "string length"@,
            value: len as int,
            limit: 0x100_0000,
        },
        Damage::TextBytes { .. } => Fault::InvalidText { key: "string"@ },
        Damage::ArrayLength { len, .. } => Fault::Implausible {
            what: "array length"@,
            value: len as int,
            limit: 0x100_0000,
        },
        Damage::ElementKind { element_type, .. } => Fault::UnknownValueType {
            type_id: element_type,
        },
    }
}

/// Bytes that are no text are not read as one.
proof fn no_text_is_read(bytes: Seq<u8>, at: int, raw: Seq<u8>, what: Seq<char>)
    requires
        stands_at(bytes, at, le_bytes(raw.len() as int, 8) + raw),
        at + 8 + raw.len() <= 0x400_0000,
        raw.len() <= 0x100_0000,
        !valid_utf8(raw),
    ensures
        string_at(bytes, at, what) == Err::<(Seq<char>, int), Fault>(
            Fault::InvalidText { key: what },
        ),
{
    let head = le_bytes(raw.len() as int, 8);
    reaches();
    bytes_are_worth_their_number(raw.len() as int, 8);
    pieces_stand(bytes, at, head, raw);
    a_number_is_read(bytes, at, raw.len() as int, 8, what);
}

/// A key and a type that stand at a place are read there, and a value is read behind them.
proof fn a_value_is_read_behind_its_key(
    bytes: Seq<u8>,
    at: int,
    key: Seq<char>,
    type_id: u32,
    fault: Fault,
)
    requires
        encode_utf8(key).len() <= 0x100_0000,
        stands_at(bytes, at, written_text(key) + le_bytes(type_id as int, 4)),
        at + written_text(key).len() + 4 <= 0x400_0000,
        value_at(bytes, at + written_text(key).len() + 4, type_id) == Err::<(Value, int), Fault>(
            fault,
        ),
    ensures
        entry_at(bytes, at) == Err::<(Pair, int), Fault>(fault),
{
    reaches();
    bytes_are_worth_their_number(type_id as int, 4);
    pieces_stand(bytes, at, written_text(key), le_bytes(type_id as int, 4));
    a_text_is_read(bytes, at, key, "metadata key"@);
    let typed = at + written_text(key).len();
    a_number_is_read(bytes, typed, type_id as int, 4, "metadata value type"@);
    assert(number_at(bytes, typed, 4, "metadata value type"@)->Ok_0.0 as u32 == type_id);
}

/// An entry that cannot be read is refused for what is wrong with it.
proof fn a_damaged_entry_is_refused(bytes: Seq<u8>, at: int, damage: Damage)
    requires
        is_damage(damage),
        stands_at(bytes, at, damaged(damage)),
        at + damaged(damage).len() <= 0x400_0000,
    ensures
        entry_at(bytes, at) == Err::<(Pair, int), Fault>(blamed(damage)),
{
    reaches();
    match damage {
        Damage::KeyLength(len) => {
            bytes_are_worth_their_number(len as int, 8);
            a_number_is_read(bytes, at, len as int, 8, "metadata key"@);
        },
        Damage::KeyBytes(raw) => {
            bytes_are_worth_their_number(raw.len() as int, 8);
            no_text_is_read(bytes, at, raw, "metadata key"@);
        },
        Damage::Kind { key, type_id } => {
            bytes_are_worth_their_number(type_id as int, 4);
            a_value_is_read_behind_its_key(bytes, at, key, type_id, blamed(damage));
        },
        Damage::TextLength { key, len } => {
            bytes_are_worth_their_number(8, 4);
            bytes_are_worth_their_number(len as int, 8);
            pieces_stand(bytes, at, written_text(key) + le_bytes(8, 4), le_bytes(len as int, 8));
            let from = at + written_text(key).len() + 4;
            a_number_is_read(bytes, from, len as int, 8, "string"@);
            a_value_is_read_behind_its_key(bytes, at, key, 8, blamed(damage));
        },
        Damage::TextBytes { key, raw } => {
            bytes_are_worth_their_number(8, 4);
            bytes_are_worth_their_number(raw.len() as int, 8);
            let text = le_bytes(raw.len() as int, 8) + raw;
            pieces_stand(bytes, at, written_text(key) + le_bytes(8, 4), text);
            let from = at + written_text(key).len() + 4;
            no_text_is_read(bytes, from, raw, "string"@);
            a_value_is_read_behind_its_key(bytes, at, key, 8, blamed(damage));
        },
        Damage::ArrayLength { key, element_type, len } => {
            bytes_are_worth_their_number(9, 4);
            bytes_are_worth_their_number(element_type as int, 4);
            bytes_are_worth_their_number(len as int, 8);
            an_array_is_begun(bytes, at, key, element_type, len);
            a_value_is_read_behind_its_key(bytes, at, key, 9, blamed(damage));
        },
        Damage::ElementKind { key, element_type, len } => {
            bytes_are_worth_their_number(9, 4);
            bytes_are_worth_their_number(element_type as int, 4);
            bytes_are_worth_their_number(len as int, 8);
            an_array_is_begun(bytes, at, key, element_type, len);
            let from = at + written_text(key).len() + 4;
            assert(number_at(bytes, from, 4, "array element type"@)->Ok_0.0 as u32
                == element_type);
            assert(value_at(bytes, from + 12, element_type) == Err::<(Value, int), Fault>(
                blamed(damage),
            ));
            assert(elements_at(bytes, from + 12, element_type, len as nat) == Err::<
                (Seq<Value>, int),
                Fault,
            >(blamed(damage)));
            a_value_is_read_behind_its_key(bytes, at, key, 9, blamed(damage));
        },
    }
}

/// The type and the length of an array that stand behind a key are read there.
proof fn an_array_is_begun(bytes: Seq<u8>, at: int, key: Seq<char>, element_type: u32, len: u64)
    requires
        stands_at(
            bytes,
            at,
            written_text(key) + le_bytes(9, 4) + (le_bytes(element_type as int, 4) + le_bytes(
                len as int,
                8,
            )),
        ),
        at + written_text(key).len() + 16 <= 0x400_0000,
    ensures
        ({
            let from = at + written_text(key).len() + 4;
            &&& stands_at(bytes, at, written_text(key) + le_bytes(9, 4))
            &&& number_at(bytes, from, 4, "array element type"@) == Ok::<(int, int), Fault>(
                (element_type as int, from + 4),
            )
            &&& number_at(bytes, from + 4, 8, "array length"@) == Ok::<(int, int), Fault>(
                (len as int, from + 12),
            )
        }),
{
    reaches();
    bytes_are_worth_their_number(9, 4);
    bytes_are_worth_their_number(element_type as int, 4);
    bytes_are_worth_their_number(len as int, 8);
    let kind = le_bytes(element_type as int, 4);
    let count = le_bytes(len as int, 8);
    pieces_stand(bytes, at, written_text(key) + le_bytes(9, 4), kind + count);
    let from = at + written_text(key).len() + 4;
    pieces_stand(bytes, from, kind, count);
    a_number_is_read(bytes, from, element_type as int, 4, "array element type"@);
    a_number_is_read(bytes, from + 4, len as int, 8, "array length"@);
}

/// The bytes of a header that declares a number of entries, as far as those that were
/// written.
pub open spec fn begun_header(
    version: u32,
    tensor_count: int,
    count: int,
    entries: Seq<Entry>,
) -> Seq<u8> {
    seq![71u8, 71u8, 85u8, 70u8] + le_bytes(version as int, 4) + le_bytes(tensor_count, 8)
        + le_bytes(count, 8) + written_entries(entries)
}

/// The counts of a header and the entries that were written are read, and a header whose
/// next entry cannot be read is refused for its reason.
proof fn a_begun_header_is_read(
    version: u32,
    tensor_count: int,
    count: int,
    good: Seq<Entry>,
    rest: Seq<u8>,
    fault: Fault,
)
    requires
        version == 2 || version == 3,
        0 <= tensor_count <= 0x100_0000,
        good.len() < count <= 0x10_0000,
        forall|i: int|
            0 <= i < good.len() ==> encode_utf8((#[trigger] good[i]).0).len() <= 0x100_0000
                && is_writable(good[i].1),
        begun_header(version, tensor_count, count, good).len() <= 0x400_0000,
        entry_at(
            begun_header(version, tensor_count, count, good) + rest,
            begun_header(version, tensor_count, count, good).len() as int,
        ) == Err::<(Pair, int), Fault>(fault),
    ensures
        parsed(begun_header(version, tensor_count, count, good) + rest) == Err::<Parsed, Fault>(
            fault,
        ),
{
    let bytes = begun_header(version, tensor_count, count, good) + rest;
    let magic = seq![71u8, 71u8, 85u8, 70u8];
    let a = le_bytes(version as int, 4);
    let b = le_bytes(tensor_count, 8);
    let c = le_bytes(count, 8);
    let d = written_entries(good);
    reaches();
    bytes_are_worth_their_number(version as int, 4);
    bytes_are_worth_their_number(tensor_count, 8);
    bytes_are_worth_their_number(count, 8);
    assert(bytes.subrange(0, (magic + a + b + c + d).len() as int) =~= magic + a + b + c + d);
    pieces_stand(bytes, 0, magic + a + b + c, d);
    pieces_stand(bytes, 0, magic + a + b, c);
    pieces_stand(bytes, 0, magic + a, b);
    pieces_stand(bytes, 0, magic, a);
    a_number_is_read(bytes, 4, version as int, 4, "version"@);
    a_number_is_read(bytes, 8, tensor_count, 8, "tensor count"@);
    a_number_is_read(bytes, 16, count, 8, "metadata count"@);
    one_bad_entry_fails_all(bytes, 24, good, (count - good.len()) as nat, fault);
    assert(good.len() + (count - good.len()) as nat == count as nat);
    assert(bytes.subrange(0, 4) =~= magic);
}

/// A header with an entry that cannot be read is refused for what is wrong with the first
/// such entry, whatever was written before it and whatever follows.
pub proof fn what_is_damaged_is_refused(
    version: u32,
    tensor_count: int,
    count: int,
    good: Seq<Entry>,
    damage: Damage,
    rest: Seq<u8>,
)
    requires
        version == 2 || version == 3,
        0 <= tensor_count <= 0x100_0000,
        good.len() < count <= 0x10_0000,
        forall|i: int|
            0 <= i < good.len() ==> encode_utf8((#[trigger] good[i]).0).len() <= 0x100_0000
                && is_writable(good[i].1),
        is_damage(damage),
        (begun_header(version, tensor_count, count, good) + damaged(damage)).len() <= 0x400_0000,
    ensures
        parsed(
            begun_header(version, tensor_count, count, good) + (damaged(damage) + rest),
        ) == Err::<Parsed, Fault>(blamed(damage)),
{
    let head = begun_header(version, tensor_count, count, good);
    let piece = damaged(damage);
    let bytes = head + (piece + rest);
    assert(bytes.subrange(head.len() as int, (head.len() + piece.len()) as int) =~= piece);
    a_damaged_entry_is_refused(bytes, head.len() as int, damage);
    a_begun_header_is_read(version, tensor_count, count, good, piece + rest, blamed(damage));
}

/// A key that would take a header past what is read of any is refused before its bytes
/// are asked for, whatever follows.
pub proof fn what_exceeds_the_budget_is_refused(
    version: u32,
    tensor_count: int,
    count: int,
    good: Seq<Entry>,
    len: int,
    rest: Seq<u8>,
)
    requires
        version == 2 || version == 3,
        0 <= tensor_count <= 0x100_0000,
        good.len() < count <= 0x10_0000,
        forall|i: int|
            0 <= i < good.len() ==> encode_utf8((#[trigger] good[i]).0).len() <= 0x100_0000
                && is_writable(good[i].1),
        0 <= len <= 0x100_0000,
        begun_header(version, tensor_count, count, good).len() + 8 <= 0x400_0000,
        begun_header(version, tensor_count, count, good).len() + 8 + len > 0x400_0000,
    ensures
        parsed(
            begun_header(version, tensor_count, count, good) + (le_bytes(len, 8) + rest),
        ) == Err::<Parsed, Fault>(
            Fault::Implausible {
                what: "string contents"@,
                value: len,
                limit: 0x400_0000 - (begun_header(version, tensor_count, count, good).len() + 8),
            },
        ),
{
    let head = begun_header(version, tensor_count, count, good);
    let piece = le_bytes(len, 8);
    let bytes = head + (piece + rest);
    reaches();
    bytes_are_worth_their_number(len, 8);
    assert(bytes.subrange(head.len() as int, (head.len() + piece.len()) as int) =~= piece);
    a_number_is_read(bytes, head.len() as int, len, 8, "metadata key"@);
    let fault = Fault::Implausible {
        what: "string contents"@,
        value: len,
        limit: 0x400_0000 - (head.len() + 8),
    };
    a_begun_header_is_read(version, tensor_count, count, good, piece + rest, fault);
}

/// A header that is cut in its first fields is told by the field that is missing.
pub proof fn a_cut_header_names_the_missing_field(version: u32, tensor_count: int, rest: Seq<u8>)
    requires
        version == 2 || version == 3,
        0 <= tensor_count <= 0x100_0000,
    ensures
        ({
            let magic = seq![71u8, 71u8, 85u8, 70u8];
            let head = magic + le_bytes(version as int, 4);
            let tensors = head + le_bytes(tensor_count, 8);
            &&& rest.len() < 4 ==> parsed(rest) == Err::<Parsed, Fault>(
                Fault::Truncated { what: "magic"@ },
            )
            &&& rest.len() < 4 ==> parsed(magic + rest) == Err::<Parsed, Fault>(
                Fault::Truncated { what: "version"@ },
            )
            &&& rest.len() < 8 ==> parsed(head + rest) == Err::<Parsed, Fault>(
                Fault::Truncated { what: "tensor count"@ },
            )
            &&& rest.len() < 8 ==> parsed(tensors + rest) == Err::<Parsed, Fault>(
                Fault::Truncated { what: "metadata count"@ },
            )
        }),
{
    let magic = seq![71u8, 71u8, 85u8, 70u8];
    let a = le_bytes(version as int, 4);
    let b = le_bytes(tensor_count, 8);
    reaches();
    bytes_are_worth_their_number(version as int, 4);
    bytes_are_worth_their_number(tensor_count, 8);
    assert((magic + rest).subrange(0, 4) =~= magic);
    let head = magic + a + rest;
    assert(head.subrange(0, 4) =~= magic);
    assert(head.subrange(4, 8) =~= a);
    a_number_is_read(head, 4, version as int, 4, "version"@);
    let tensors = magic + a + b + rest;
    assert(tensors.subrange(0, 4) =~= magic);
    assert(tensors.subrange(4, 8) =~= a);
    assert(tensors.subrange(8, 16) =~= b);
    a_number_is_read(tensors, 4, version as int, 4, "version"@);
    a_number_is_read(tensors, 8, tensor_count, 8, "tensor count"@);
}

/// How many bytes a value of a type begins with before anything depends on what they are,
/// and what they are called.
pub open spec fn first_bytes(type_id: u32) -> (int, Seq<char>) {
    if type_id == 0 {
        (1, "uint8"@)
    } else if type_id == 1 {
        (1, "int8"@)
    } else if type_id == 2 {
        (2, "uint16"@)
    } else if type_id == 3 {
        (2, "int16"@)
    } else if type_id == 4 {
        (4, "uint32"@)
    } else if type_id == 5 {
        (4, "int32"@)
    } else if type_id == 6 {
        (4, "float32"@)
    } else if type_id == 7 {
        (1, "bool"@)
    } else if type_id == 8 {
        (8, "string"@)
    } else if type_id == 9 {
        (4, "array element type"@)
    } else if type_id == 10 {
        (8, "uint64"@)
    } else if type_id == 11 {
        (8, "int64"@)
    } else {
        (8, "float64"@)
    }
}

/// A key whose bytes run out is missed.
proof fn a_cut_key_is_missed(bytes: Seq<u8>, at: int, len: int)
    requires
        stands_at(bytes, at, le_bytes(len, 8)),
        0 <= len <= 0x100_0000,
        bytes.len() < at + 8 + len <= 0x400_0000,
    ensures
        entry_at(bytes, at) == Err::<(Pair, int), Fault>(Fault::Truncated { what: "metadata key"@ }),
{
    reaches();
    bytes_are_worth_their_number(len, 8);
    a_number_is_read(bytes, at, len, 8, "metadata key"@);
}

/// A type that runs out is missed.
proof fn a_cut_type_is_missed(bytes: Seq<u8>, at: int, key: Seq<char>)
    requires
        encode_utf8(key).len() <= 0x100_0000,
        stands_at(bytes, at, written_text(key)),
        bytes.len() < at + written_text(key).len() + 4 <= 0x400_0000,
    ensures
        entry_at(bytes, at) == Err::<(Pair, int), Fault>(
            Fault::Truncated { what: "metadata value type"@ },
        ),
{
    a_text_is_read(bytes, at, key, "metadata key"@);
}

/// A value that runs out before anything depends on it is missed.
proof fn a_cut_value_is_missed(bytes: Seq<u8>, at: int, key: Seq<char>, type_id: u32)
    requires
        type_id <= 12,
        encode_utf8(key).len() <= 0x100_0000,
        stands_at(bytes, at, written_text(key) + le_bytes(type_id as int, 4)),
        bytes.len() < at + written_text(key).len() + 4 + first_bytes(type_id).0,
        at + written_text(key).len() + 12 <= 0x400_0000,
    ensures
        entry_at(bytes, at) == Err::<(Pair, int), Fault>(
            Fault::Truncated { what: first_bytes(type_id).1 },
        ),
{
    bytes_are_worth_their_number(type_id as int, 4);
    let fault = Fault::Truncated { what: first_bytes(type_id).1 };
    assert(value_at(bytes, at + written_text(key).len() + 4, type_id) == Err::<(Value, int), Fault>(
        fault,
    ));
    a_value_is_read_behind_its_key(bytes, at, key, type_id, fault);
}

/// A header that is cut in an entry is told by the part that is missing: the key, the type
/// of the value, or the value by its type.
pub proof fn a_cut_entry_names_the_missing_part(
    version: u32,
    tensor_count: int,
    count: int,
    good: Seq<Entry>,
    key: Seq<char>,
    type_id: u32,
    len: int,
    rest: Seq<u8>,
)
    requires
        version == 2 || version == 3,
        0 <= tensor_count <= 0x100_0000,
        good.len() < count <= 0x10_0000,
        forall|i: int|
            0 <= i < good.len() ==> encode_utf8((#[trigger] good[i]).0).len() <= 0x100_0000
                && is_writable(good[i].1),
        encode_utf8(key).len() <= 0x100_0000,
        type_id <= 12,
        0 <= len <= 0x100_0000,
        begun_header(version, tensor_count, count, good).len() + written_text(key).len() + len + 12
            <= 0x400_0000,
    ensures
        ({
            let head = begun_header(version, tensor_count, count, good);
            let typed = written_text(key) + le_bytes(type_id as int, 4);
            &&& rest.len() < 8 ==> parsed(head + rest) == Err::<Parsed, Fault>(
                Fault::Truncated { what: "metadata key"@ },
            )
            &&& rest.len() < len ==> parsed(head + (le_bytes(len, 8) + rest)) == Err::<
                Parsed,
                Fault,
            >(Fault::Truncated { what: "metadata key"@ })
            &&& rest.len() < 4 ==> parsed(head + (written_text(key) + rest)) == Err::<
                Parsed,
                Fault,
            >(Fault::Truncated { what: "metadata value type"@ })
            &&& rest.len() < first_bytes(type_id).0 ==> parsed(head + (typed + rest)) == Err::<
                Parsed,
                Fault,
            >(Fault::Truncated { what: first_bytes(type_id).1 })
        }),
{
    let head = begun_header(version, tensor_count, count, good);
    let at = head.len() as int;
    reaches();
    if rest.len() < 8 {
        a_begun_header_is_read(
            version,
            tensor_count,
            count,
            good,
            rest,
            Fault::Truncated { what: "metadata key"@ },
        );
    }
    if rest.len() < len {
        let piece = le_bytes(len, 8);
        let bytes = head + (piece + rest);
        bytes_are_worth_their_number(len, 8);
        assert(bytes.subrange(at, at + 8) =~= piece);
        a_cut_key_is_missed(bytes, at, len);
        a_begun_header_is_read(
            version,
            tensor_count,
            count,
            good,
            piece + rest,
            Fault::Truncated { what: "metadata key"@ },
        );
    }
    let text = written_text(key);
    bytes_are_worth_their_number(encode_utf8(key).len() as int, 8);
    if rest.len() < 4 {
        let bytes = head + (text + rest);
        assert(bytes.subrange(at, at + text.len()) =~= text);
        a_cut_type_is_missed(bytes, at, key);
        a_begun_header_is_read(
            version,
            tensor_count,
            count,
            good,
            text + rest,
            Fault::Truncated { what: "metadata value type"@ },
        );
    }
    if rest.len() < first_bytes(type_id).0 {
        let typed = text + le_bytes(type_id as int, 4);
        let bytes = head + (typed + rest);
        bytes_are_worth_their_number(type_id as int, 4);
        assert(bytes.subrange(at, at + typed.len()) =~= typed);
        let fault = Fault::Truncated { what: first_bytes(type_id).1 };
        a_cut_value_is_missed(bytes, at, key, type_id);
        a_begun_header_is_read(version, tensor_count, count, good, typed + rest, fault);
    }
}

} // verus!
