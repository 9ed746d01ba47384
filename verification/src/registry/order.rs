//! The order of text: that of its bytes in UTF-8, the first difference deciding.

use vstd::prelude::*;
use vstd::string::*;
use vstd::utf8::*;

use crate::text::encoding_is_injective;

verus! {

/// Whether bytes stand before others: at the first difference the smaller byte does,
/// and what ends first stands before what goes on.
pub open spec fn precedes(a: Seq<u8>, b: Seq<u8>) -> bool
    decreases a.len(),
{
    if b.len() == 0 {
        false
    } else if a.len() == 0 {
        true
    } else if a[0] == b[0] {
        precedes(a.drop_first(), b.drop_first())
    } else {
        a[0] < b[0]
    }
}

/// Whether a text stands before another.
pub open spec fn text_precedes(a: Seq<char>, b: Seq<char>) -> bool {
    precedes(encode_utf8(a), encode_utf8(b))
}

proof fn bytes_are_ordered(a: Seq<u8>, b: Seq<u8>, c: Seq<u8>)
    ensures
        !precedes(a, a),
        precedes(a, b) && precedes(b, c) ==> precedes(a, c),
        a == b || precedes(a, b) || precedes(b, a),
    decreases a.len(),
{
    if a.len() > 0 {
        if b.len() > 0 && a[0] == b[0] && a.drop_first() == b.drop_first() {
            assert(a =~= seq![a[0]] + a.drop_first());
            assert(b =~= seq![b[0]] + b.drop_first());
        }
        bytes_are_ordered(
            a.drop_first(),
            if b.len() > 0 { b.drop_first() } else { b },
            if c.len() > 0 { c.drop_first() } else { c },
        );
    } else if b.len() == 0 {
        assert(a =~= b);
    }
}

/// Text is ordered: nothing stands before itself, what stands before another stands
/// before all that follow it, and of two different texts one stands before the other.
pub proof fn text_is_ordered(a: Seq<char>, b: Seq<char>, c: Seq<char>)
    ensures
        !text_precedes(a, a),
        text_precedes(a, b) && text_precedes(b, c) ==> text_precedes(a, c),
        a == b || text_precedes(a, b) || text_precedes(b, a),
        !(text_precedes(a, b) && text_precedes(b, a)),
{
    bytes_are_ordered(encode_utf8(a), encode_utf8(b), encode_utf8(c));
    bytes_are_ordered(encode_utf8(a), encode_utf8(b), encode_utf8(a));
    if encode_utf8(a) == encode_utf8(b) {
        encoding_is_injective(a, b);
    }
}

/// Whether a text stands before another.
pub fn stands_before(a: &str, b: &str) -> (yes: bool)
    ensures
        yes == text_precedes(a@, b@),
{
    let x = a.as_bytes();
    let y = b.as_bytes();
    let mut i: usize = 0;
    assert(x@.skip(0) =~= x@);
    assert(y@.skip(0) =~= y@);
    while i < x.len() && i < y.len() && x[i] == y[i]
        invariant
            i <= x@.len(),
            i <= y@.len(),
            precedes(x@, y@) == precedes(x@.skip(i as int), y@.skip(i as int)),
        decreases x@.len() - i,
    {
        assert(x@.skip(i as int).drop_first() =~= x@.skip(i + 1));
        assert(y@.skip(i as int).drop_first() =~= y@.skip(i + 1));
        i = i + 1;
    }
    if i >= y.len() {
        false
    } else if i >= x.len() {
        true
    } else {
        x[i] < y[i]
    }
}

proof fn what_is_common_decides_nothing(common: Seq<u8>, a: Seq<u8>, b: Seq<u8>)
    ensures
        precedes(common + a, common + b) == precedes(a, b),
    decreases common.len(),
{
    if common.len() == 0 {
        assert(common + a =~= a);
        assert(common + b =~= b);
    } else {
        let rest = common.drop_first();
        what_is_common_decides_nothing(rest, a, b);
        assert((common + a).drop_first() =~= rest + a);
        assert((common + b).drop_first() =~= rest + b);
        assert((common + a)[0] == common[0] && (common + b)[0] == common[0]);
    }
}

/// The first byte that differs decides, the smaller one standing before the larger,
/// whatever follows; and a text stands before every text that goes on from it.
pub proof fn the_first_difference_decides(
    common: Seq<u8>,
    x: u8,
    y: u8,
    a: Seq<u8>,
    b: Seq<u8>,
)
    requires
        x != y,
    ensures
        precedes(common + seq![x] + a, common + seq![y] + b) <==> x < y,
        precedes(common, common + seq![x] + a),
        !precedes(common + seq![x] + a, common),
{
    let p = seq![x] + a;
    let q = seq![y] + b;
    let none = Seq::<u8>::empty();
    assert(common + seq![x] + a =~= common + p);
    assert(common + seq![y] + b =~= common + q);
    what_is_common_decides_nothing(common, p, q);
    assert(common + none =~= common);
    what_is_common_decides_nothing(common, none, p);
    what_is_common_decides_nothing(common, p, none);
}

} // verus!
