//! Text as sequences of characters: the few string operations the rest of the
//! library needs, each with a contract over `Seq<char>`.

use vstd::prelude::*;
use vstd::string::*;
use vstd::utf8::*;

verus! {

/// The message `std::str::Utf8Error` displays for a byte sequence that is not UTF-8.
pub uninterp spec fn utf8_fault(bytes: Seq<u8>) -> Seq<char>;

/// `String::push` of the standard library: appends one character.
pub assume_specification[ std::string::String::push ](s: &mut std::string::String, c: char)
    ensures
        final(s)@ == old(s)@.push(c),
;

/// `std::str::from_utf8` of the standard library, with the text copied out.
///
/// Succeeds exactly on well-formed UTF-8, and then holds the characters that the
/// bytes encode. A failure carries the message of the standard library's error.
#[verifier::external_body]
pub(crate) fn decode_text(bytes: &[u8]) -> (decoded: Result<String, String>)
    ensures
        decoded is Ok <==> valid_utf8(bytes@),
        decoded matches Ok(text) ==> text@ == decode_utf8(bytes@),
        decoded matches Err(reason) ==> reason@ == utf8_fault(bytes@),
{
    match std::str::from_utf8(bytes) {
        Ok(text) => Ok(text.to_owned()),
        Err(err) => Err(err.to_string()),
    }
}

/// What `String::from_utf8_lossy` makes of a byte sequence.
pub uninterp spec fn replaced_text(bytes: Seq<u8>) -> Seq<char>;

/// `String::from_utf8_lossy` of the standard library: the text of the bytes, with
/// what is not UTF-8 replaced. Well-formed bytes come back as what they encode.
#[verifier::external_body]
pub(crate) fn lossy_text(bytes: &[u8]) -> (text: String)
    ensures
        text@ == replaced_text(bytes@),
        valid_utf8(bytes@) ==> text@ == decode_utf8(bytes@),
{
    String::from_utf8_lossy(bytes).into_owned()
}

/// A string as its `Debug` form shows it: in quotes, with escapes.
pub uninterp spec fn quoted_text(text: Seq<char>) -> Seq<char>;

/// The `Debug` form of `str` of the standard library.
#[verifier::external_body]
pub(crate) fn debug_text(text: &str) -> (quoted: String)
    ensures
        quoted@ == quoted_text(text@),
{
    format!("{:?}", text)
}

/// The characters of a string.
pub fn chars_of(s: &str) -> (chars: Vec<char>)
    ensures
        chars@ == s@,
{
    let mut chars: Vec<char> = Vec::new();
    for c in it: s.chars()
        invariant
            it.seq() == s@,
            chars@ == s@.take(it.index() as int),
    {
        chars.push(c);
        assert(chars@ =~= s@.take(it.index() + 1));
    }
    assert(s@.take(s@.len() as int) =~= s@);
    chars
}

/// A string of the given characters.
pub fn string_of(chars: &[char]) -> (s: String)
    ensures
        s@ == chars@,
{
    let mut s = String::new();
    let mut i: usize = 0;
    while i < chars.len()
        invariant
            i <= chars@.len(),
            s@ == chars@.take(i as int),
        decreases chars@.len() - i,
    {
        s.push(chars[i]);
        assert(chars@.take(i + 1) =~= chars@.take(i as int).push(chars@[i as int]));
        i = i + 1;
    }
    assert(chars@.take(i as int) =~= chars@);
    s
}

/// The characters of each string of a list.
pub open spec fn texts(items: Seq<String>) -> Seq<Seq<char>> {
    items.map_values(|item: String| item@)
}

/// Two character sequences with the same encoding are the same.
pub proof fn encoding_is_injective(a: Seq<char>, b: Seq<char>)
    requires
        encode_utf8(a) == encode_utf8(b),
    ensures
        a == b,
{
    encode_utf8_decode_utf8(a);
    encode_utf8_decode_utf8(b);
}

/// Whether two strings hold the same characters.
pub fn same_text(a: &str, b: &str) -> (same: bool)
    ensures
        same == (a@ == b@),
{
    let x = a.as_bytes();
    let y = b.as_bytes();
    if x.len() != y.len() {
        return false;
    }
    let mut i: usize = 0;
    while i < x.len()
        invariant
            i <= x@.len(),
            x@.len() == y@.len(),
            x@ == encode_utf8(a@),
            y@ == encode_utf8(b@),
            forall|j: int| 0 <= j < i ==> x@[j] == y@[j],
        decreases x@.len() - i,
    {
        if x[i] != y[i] {
            return false;
        }
        i = i + 1;
    }
    proof {
        assert(x@ =~= y@);
        encoding_is_injective(a@, b@);
    }
    true
}

/// The decimal digit with the given value.
pub open spec fn digit_char(d: nat) -> char {
    (48 + d) as char
}

/// A number in decimal, without leading zeros.
pub open spec fn decimal(n: nat) -> Seq<char>
    decreases n,
{
    if n < 10 {
        seq![digit_char(n)]
    } else {
        decimal(n / 10).push(digit_char(n % 10))
    }
}

/// The number that decimal digits stand for, the last digit counting ones.
pub open spec fn digits_value(digits: Seq<char>) -> int
    decreases digits.len(),
{
    if digits.len() == 0 {
        0
    } else {
        10 * digits_value(digits.drop_last()) + (digits.last() as int - '0' as int)
    }
}

/// Whether a text is how a number that is not negative is written: digits alone, and
/// no zero before others.
pub open spec fn is_numeral(digits: Seq<char>) -> bool {
    &&& digits.len() > 0
    &&& digits[0] == '0' ==> digits.len() == 1
    &&& forall|i: int| 0 <= i < digits.len() ==> '0' <= #[trigger] digits[i] <= '9'
}

/// Whether a text is an integer, written with a sign where it is below zero.
pub open spec fn reads_as(text: Seq<char>, n: int) -> bool {
    if n >= 0 {
        is_numeral(text) && digits_value(text) == n
    } else {
        &&& text.len() > 0
        &&& text[0] == '-'
        &&& is_numeral(text.drop_first())
        &&& digits_value(text.drop_first()) == -n
    }
}

/// A number's decimal form is a numeral, and reads back as the number.
pub proof fn a_number_reads_back_from_its_decimal(n: nat)
    ensures
        reads_as(decimal(n), n as int),
    decreases n,
{
    reveal_with_fuel(digits_value, 2);
    if n < 10 {
        assert(decimal(n) =~= seq![digit_char(n)]);
        assert(seq![digit_char(n)].drop_last() =~= Seq::empty());
        assert(decimal(n)[0] as int == 48 + n);
    } else {
        a_number_reads_back_from_its_decimal(n / 10);
        let front = decimal(n / 10);
        let last = digit_char(n % 10);
        assert(last as int == 48 + n % 10);
        assert(decimal(n) =~= front.push(last));
        assert(front.push(last).drop_last() =~= front);
        assert(digits_value(front) == n / 10);
        if front[0] == '0' {
            assert(front =~= seq!['0']);
            assert(seq!['0'].drop_last() =~= Seq::empty());
            assert(digits_value(front) == 0);
        }
        assert forall|i: int| 0 <= i < decimal(n).len() implies '0' <= #[trigger] decimal(n)[i]
            <= '9' by {
            if i < front.len() {
                assert(decimal(n)[i] == front[i]);
            }
        }
    }
}

/// A signed number's decimal form reads back as the number.
pub proof fn a_signed_number_reads_back_from_its_decimal(n: int)
    ensures
        reads_as(signed_decimal(n), n),
{
    if n < 0 {
        a_number_reads_back_from_its_decimal((-n) as nat);
        reveal_strlit("-");
        let text = signed_decimal(n);
        assert(text[0] == '-');
        assert(text.drop_first() =~= decimal((-n) as nat));
    } else {
        a_number_reads_back_from_its_decimal(n as nat);
    }
}

/// A text is at most one integer.
pub proof fn a_numeral_is_one_number(text: Seq<char>, a: int, b: int)
    requires
        reads_as(text, a),
        reads_as(text, b),
    ensures
        a == b,
{
    if a < 0 && b >= 0 {
        assert('0' <= text[0] <= '9');
    }
    if a >= 0 && b < 0 {
        assert('0' <= text[0] <= '9');
    }
}

/// Writes a number in decimal.
pub fn decimal_u64(n: u64) -> (s: String)
    ensures
        s@ == decimal(n as nat),
        reads_as(s@, n as int),
    decreases n,
{
    proof {
        a_number_reads_back_from_its_decimal(n as nat);
    }
    if n < 10 {
        let mut s = String::new();
        s.push((48 + n as u8) as char);
        assert(s@ =~= decimal(n as nat));
        s
    } else {
        let mut s = decimal_u64(n / 10);
        s.push((48 + (n % 10) as u8) as char);
        s
    }
}

/// A signed number in decimal.
pub open spec fn signed_decimal(n: int) -> Seq<char> {
    if n < 0 {
        "-"@ + decimal((-n) as nat)
    } else {
        decimal(n as nat)
    }
}

/// Writes a signed number in decimal.
pub fn decimal_i64(n: i64) -> (s: String)
    ensures
        s@ == signed_decimal(n as int),
        reads_as(s@, n as int),
{
    proof {
        a_signed_number_reads_back_from_its_decimal(n as int);
    }
    if n < 0 {
        let mut s = "-".to_owned();
        let magnitude: u64 = (-(n as i128)) as u64;
        s.append(decimal_u64(magnitude).as_str());
        s
    } else {
        decimal_u64(n as u64)
    }
}

/// A duration in seconds, as the shortest decimal of its 32-bit float.
pub uninterp spec fn seconds_shown(nanos: u64) -> Seq<char>;

/// `std::time::Duration::as_secs_f32`: a duration in seconds, which depends on the
/// duration alone. The duration is taken as nanoseconds and the float given as the text
/// it is displayed as, so that neither is held here.
#[verifier::external_body]
pub(crate) fn seconds_text(nanos: u64) -> (s: String)
    ensures
        s@ == seconds_shown(nanos),
{
    let seconds = std::time::Duration::from_nanos(nanos).as_secs_f32();
    format!("{seconds}")
}

/// The text of an optional string.
pub open spec fn opt_text(text: Option<String>) -> Option<Seq<char>> {
    match text {
        Some(t) => Some(t@),
        None => None,
    }
}

/// Whether a character has the Unicode property `White_Space`.
pub open spec fn is_space(c: char) -> bool {
    ||| '\u{9}' <= c <= '\u{d}'
    ||| c == ' '
    ||| c == '\u{85}'
    ||| c == '\u{a0}'
    ||| c == '\u{1680}'
    ||| '\u{2000}' <= c <= '\u{200a}'
    ||| c == '\u{2028}'
    ||| c == '\u{2029}'
    ||| c == '\u{202f}'
    ||| c == '\u{205f}'
    ||| c == '\u{3000}'
}

pub(crate) fn space(c: char) -> (yes: bool)
    ensures
        yes == is_space(c),
{
    ('\u{9}' <= c && c <= '\u{d}') || c == ' ' || c == '\u{85}' || c == '\u{a0}' || c
        == '\u{1680}' || ('\u{2000}' <= c && c <= '\u{200a}') || c == '\u{2028}' || c
        == '\u{2029}' || c == '\u{202f}' || c == '\u{205f}' || c == '\u{3000}'
}

/// A text without its leading white space.
pub open spec fn trimmed_start(s: Seq<char>) -> Seq<char>
    decreases s.len(),
{
    if s.len() > 0 && is_space(s[0]) {
        trimmed_start(s.drop_first())
    } else {
        s
    }
}

/// A text without its trailing white space.
pub open spec fn trimmed_end(s: Seq<char>) -> Seq<char>
    decreases s.len(),
{
    if s.len() > 0 && is_space(s.last()) {
        trimmed_end(s.drop_last())
    } else {
        s
    }
}

/// A text without the white space around it.
pub open spec fn trimmed(s: Seq<char>) -> Seq<char> {
    trimmed_end(trimmed_start(s))
}

/// Whether a text is nothing but white space.
pub open spec fn all_space(s: Seq<char>) -> bool {
    forall|i: int| 0 <= i < s.len() ==> is_space(#[trigger] s[i])
}

/// No mark that ASCII can print is white space, and its blank, tab and line ends are.
pub proof fn white_space_does_not_print(c: char)
    ensures
        '!' <= c <= '~' ==> !is_space(c),
        is_space(' ') && is_space('\t') && is_space('\n') && is_space('\r'),
{
}

/// The white space of Unicode, by the numbers of its code points.
pub proof fn white_space_is_what_unicode_says(c: char)
    ensures
        is_space(c) <==> {
            let n = c as u32;
            ||| 9 <= n <= 13
            ||| n == 32
            ||| n == 133
            ||| n == 160
            ||| n == 5760
            ||| 8192 <= n <= 8202
            ||| n == 8232
            ||| n == 8233
            ||| n == 8239
            ||| n == 8287
            ||| n == 12288
        },
{
}

/// Trimming the start of a text takes white space from it up to what is none.
pub proof fn trimming_the_start(s: Seq<char>)
    ensures
        ({
            let n = s.len() - trimmed_start(s).len();
            &&& 0 <= n <= s.len()
            &&& trimmed_start(s) == s.skip(n)
            &&& all_space(s.take(n))
            &&& n < s.len() ==> !is_space(s[n])
        }),
    decreases s.len(),
{
    if s.len() > 0 && is_space(s[0]) {
        let rest = s.drop_first();
        trimming_the_start(rest);
        let n = rest.len() - trimmed_start(rest).len();
        assert(rest.skip(n) =~= s.skip(n + 1));
        assert forall|i: int| 0 <= i < n + 1 implies is_space(#[trigger] s.take(n + 1)[i]) by {
            if i > 0 {
                assert(s.take(n + 1)[i] == rest.take(n)[i - 1]);
            }
        }
    } else {
        assert(s.skip(0) =~= s);
    }
}

proof fn trimming_the_end(s: Seq<char>)
    ensures
        ({
            let n = trimmed_end(s).len() as int;
            &&& 0 <= n <= s.len()
            &&& trimmed_end(s) == s.take(n)
            &&& all_space(s.skip(n))
            &&& n > 0 ==> !is_space(s[n - 1])
        }),
    decreases s.len(),
{
    if s.len() > 0 && is_space(s.last()) {
        let rest = s.drop_last();
        trimming_the_end(rest);
        let n = trimmed_end(rest).len() as int;
        assert(rest.take(n) =~= s.take(n));
        assert forall|i: int| 0 <= i < s.len() - n implies is_space(#[trigger] s.skip(n)[i]) by {
            if i < rest.len() - n {
                assert(s.skip(n)[i] == rest.skip(n)[i]);
            }
        }
    } else {
        assert(s.take(s.len() as int) =~= s);
    }
}

/// Trimming takes white space from the two ends of a text and nothing else, and leaves
/// none there.
pub proof fn trimming_takes_white_space_alone(s: Seq<char>)
    ensures
        exists|from: int, to: int|
            #![trigger s.subrange(from, to)]
            {
                &&& 0 <= from <= to <= s.len()
                &&& trimmed(s) == s.subrange(from, to)
                &&& all_space(s.take(from))
                &&& all_space(s.skip(to))
            },
        trimmed(s).len() > 0 ==> !is_space(trimmed(s)[0]) && !is_space(trimmed(s).last()),
{
    trimming_the_start(s);
    let start = trimmed_start(s);
    trimming_the_end(start);
    let from = s.len() - start.len();
    let to = from + trimmed(s).len();
    assert(trimmed(s) =~= s.subrange(from, to));
    assert forall|i: int| 0 <= i < s.len() - to implies is_space(#[trigger] s.skip(to)[i]) by {
        assert(s.skip(to)[i] == start.skip(to - from)[i]);
    }
    if trimmed(s).len() > 0 {
        assert(trimmed(s)[0] == s[from]);
    }
}

/// Nothing is left of white space when it is trimmed, and something of everything else.
pub proof fn nothing_is_left_of_white_space(s: Seq<char>)
    ensures
        trimmed(s).len() == 0 <==> all_space(s),
{
    trimming_the_start(s);
    let start = trimmed_start(s);
    trimming_the_end(start);
    let n = s.len() - start.len();
    if start.len() == 0 {
        assert(s.take(n) =~= s);
    } else {
        assert(start[0] == s[n]);
        assert(!all_space(s));
        if trimmed(s).len() == 0 {
            assert(start.skip(0)[0] == start[0]);
        }
    }
}

/// A text that has something else than white space at both ends is trimmed out of any
/// white space around it.
pub proof fn trimming_undoes_padding(a: Seq<char>, s: Seq<char>, b: Seq<char>)
    requires
        all_space(a),
        all_space(b),
        s.len() > 0,
        !is_space(s[0]),
        !is_space(s.last()),
    ensures
        trimmed(a + s + b) == s,
    decreases a.len() + b.len(),
{
    let whole = a + s + b;
    if a.len() > 0 {
        let rest = a.drop_first();
        assert forall|i: int| 0 <= i < rest.len() implies is_space(#[trigger] rest[i]) by {
            assert(rest[i] == a[i + 1]);
        }
        trimming_undoes_padding(rest, s, b);
        assert(is_space(a[0]));
        assert(whole[0] == a[0]);
        assert(whole.drop_first() =~= rest + s + b);
    } else {
        assert(whole[0] == s[0]);
        assert(trimmed_start(whole) == whole);
        if b.len() > 0 {
            let rest = b.drop_last();
            assert forall|i: int| 0 <= i < rest.len() implies is_space(#[trigger] rest[i]) by {
                assert(rest[i] == b[i]);
            }
            trimming_undoes_padding(a, s, rest);
            assert((a + s + rest)[0] == s[0]);
            assert(trimmed_start(a + s + rest) == a + s + rest);
            assert(is_space(b[b.len() - 1]));
            assert(whole.last() == b.last());
            assert(whole.drop_last() =~= a + s + rest);
        } else {
            assert(whole =~= s);
        }
    }
}

/// Drops the white space around a text.
pub fn trim<'a>(s: &'a [char]) -> (t: &'a [char])
    ensures
        t@ == trimmed(s@),
{
    let mut from: usize = 0;
    let mut to: usize = s.len();
    assert(s@.subrange(0, to as int) =~= s@);
    while from < to && space(s[from])
        invariant
            from <= to,
            to == s@.len(),
            trimmed_start(s@) == trimmed_start(s@.subrange(from as int, to as int)),
        ensures
            from <= to,
            to == s@.len(),
            trimmed_start(s@) == s@.subrange(from as int, to as int),
        decreases to - from,
    {
        assert(s@.subrange(from as int, to as int).drop_first() =~= s@.subrange(
            from + 1,
            to as int,
        ));
        from = from + 1;
    }
    while from < to && space(s[to - 1])
        invariant
            from <= to <= s@.len(),
            trimmed(s@) == trimmed_end(s@.subrange(from as int, to as int)),
        ensures
            from <= to <= s@.len(),
            trimmed(s@) == s@.subrange(from as int, to as int),
        decreases to - from,
    {
        assert(s@.subrange(from as int, to as int).drop_last() =~= s@.subrange(
            from as int,
            to - 1,
        ));
        to = to - 1;
    }
    vstd::slice::slice_subrange(s, from, to)
}

/// Whether a text consists of nothing but white space.
pub fn is_blank(s: &str) -> (blank: bool)
    ensures
        blank == (trimmed(s@).len() == 0),
{
    let chars = chars_of(s);
    trim(chars.as_slice()).len() == 0
}

/// Whether a text begins with a prefix.
pub open spec fn begins_with(s: Seq<char>, prefix: Seq<char>) -> bool {
    prefix.len() <= s.len() && s.take(prefix.len() as int) == prefix
}

/// A text begins with a prefix exactly when it is the prefix and something behind it.
pub proof fn a_prefix_stands_first(s: Seq<char>, prefix: Seq<char>)
    ensures
        begins_with(s, prefix) <==> exists|rest: Seq<char>| s == #[trigger] (prefix + rest),
{
    if begins_with(s, prefix) {
        assert(s =~= prefix + s.skip(prefix.len() as int));
    }
    if exists|rest: Seq<char>| s == #[trigger] (prefix + rest) {
        assert(s.take(prefix.len() as int) =~= prefix);
    }
}

/// Whether a text begins with a prefix.
pub fn starts_with(s: &[char], prefix: &[char]) -> (yes: bool)
    ensures
        yes == begins_with(s@, prefix@),
{
    if prefix.len() > s.len() {
        return false;
    }
    let mut i: usize = 0;
    while i < prefix.len()
        invariant
            i <= prefix@.len() <= s@.len(),
            forall|j: int| 0 <= j < i ==> s@[j] == prefix@[j],
        decreases prefix@.len() - i,
    {
        if s[i] != prefix[i] {
            assert(s@.take(prefix@.len() as int)[i as int] != prefix@[i as int]);
            return false;
        }
        i = i + 1;
    }
    assert(s@.take(prefix@.len() as int) =~= prefix@);
    true
}

/// Whether a text occurs in another.
pub open spec fn occurs_in(needle: Seq<char>, hay: Seq<char>) -> bool {
    exists|at: int| 0 <= at <= hay.len() && begins_with(#[trigger] hay.skip(at), needle)
}

/// A text occurs in another exactly when that is it with something on either side.
pub proof fn what_occurs_stands_between_the_rest(needle: Seq<char>, hay: Seq<char>)
    ensures
        occurs_in(needle, hay) <==> exists|a: Seq<char>, b: Seq<char>|
            hay == #[trigger] (a + needle + b),
{
    if occurs_in(needle, hay) {
        let at = choose|at: int|
            0 <= at <= hay.len() && begins_with(#[trigger] hay.skip(at), needle);
        let a = hay.take(at);
        let b = hay.skip(at).skip(needle.len() as int);
        assert(hay.skip(at) =~= needle + b);
        assert(hay =~= a + needle + b);
    }
    if exists|a: Seq<char>, b: Seq<char>| hay == #[trigger] (a + needle + b) {
        let (a, b) = choose|a: Seq<char>, b: Seq<char>| hay == #[trigger] (a + needle + b);
        assert(hay.skip(a.len() as int) =~= needle + b);
        a_prefix_stands_first(hay.skip(a.len() as int), needle);
    }
}

/// Whether a text occurs in another.
pub fn contains_text(hay: &str, needle: &str) -> (yes: bool)
    ensures
        yes == occurs_in(needle@, hay@),
{
    let h = chars_of(hay);
    let n = chars_of(needle);
    let mut at: usize = 0;
    while at <= h.len()
        invariant
            h@ == hay@,
            n@ == needle@,
            at <= h@.len() + 1,
            forall|j: int| 0 <= j < at ==> !begins_with(#[trigger] hay@.skip(j), needle@),
        decreases h@.len() + 1 - at,
    {
        let tail = vstd::slice::slice_subrange(h.as_slice(), at, h.len());
        assert(tail@ =~= hay@.skip(at as int));
        if starts_with(tail, n.as_slice()) {
            return true;
        }
        if at == h.len() {
            return false;
        }
        at = at + 1;
    }
    false
}

/// Where a character first stands in a text, or its length.
pub open spec fn position(s: Seq<char>, c: char) -> int
    decreases s.len(),
{
    if s.len() == 0 || s[0] == c {
        0
    } else {
        1 + position(s.drop_first(), c)
    }
}

/// The first place of a character holds it, and no place before does; a text without it
/// has none.
pub proof fn nothing_stands_before_the_first(s: Seq<char>, c: char)
    ensures
        0 <= position(s, c) <= s.len(),
        position(s, c) < s.len() ==> s[position(s, c)] == c,
        forall|j: int| 0 <= j < position(s, c) ==> #[trigger] s[j] != c,
    decreases s.len(),
{
    if s.len() > 0 && s[0] != c {
        let rest = s.drop_first();
        nothing_stands_before_the_first(rest, c);
        assert forall|j: int| 0 <= j < position(s, c) implies #[trigger] s[j] != c by {
            if j > 0 {
                assert(s[j] == rest[j - 1]);
            }
        }
    }
}

/// Finds the first occurrence of a character.
pub fn find_char(s: &[char], c: char) -> (at: usize)
    ensures
        at == position(s@, c),
        at <= s@.len(),
        at < s@.len() ==> s@[at as int] == c,
        forall|j: int| 0 <= j < at ==> #[trigger] s@[j] != c,
{
    proof {
        nothing_stands_before_the_first(s@, c);
    }
    let mut i: usize = 0;
    assert(s@.skip(0) =~= s@);
    while i < s.len()
        invariant
            i <= s@.len(),
            position(s@, c) == i + position(s@.skip(i as int), c),
            forall|j: int| 0 <= j < i ==> #[trigger] s@[j] != c,
        decreases s@.len() - i,
    {
        if s[i] == c {
            return i;
        }
        assert(s@.skip(i as int).drop_first() =~= s@.skip(i + 1));
        i = i + 1;
    }
    i
}

/// The lower-case hexadecimal digit with the given value.
pub open spec fn hex_digit(d: u8) -> char {
    if d < 10 {
        (48 + d) as char
    } else {
        (87 + d) as char
    }
}

/// Bytes in hexadecimal, two digits each.
pub open spec fn hex(bytes: Seq<u8>) -> Seq<char>
    decreases bytes.len(),
{
    if bytes.len() == 0 {
        Seq::empty()
    } else {
        hex(bytes.drop_last()).push(hex_digit(bytes.last() / 16)).push(
            hex_digit(bytes.last() % 16),
        )
    }
}

fn hex_char(d: u8) -> (c: char)
    requires
        d < 16,
    ensures
        c == hex_digit(d),
{
    if d < 10 {
        (48 + d) as char
    } else {
        (87 + d) as char
    }
}

/// Writes bytes in hexadecimal.
pub fn hex_of(bytes: &[u8]) -> (s: String)
    ensures
        s@ == hex(bytes@),
        s@.len() == 2 * bytes@.len(),
        forall|j: int|
            0 <= j < bytes@.len() ==> #[trigger] bytes@[j] == 16 * hex_value(s@[2 * j])
                + hex_value(s@[2 * j + 1]),
{
    proof {
        bytes_read_back_from_hexadecimal(bytes@);
    }
    let mut s = String::new();
    let mut i: usize = 0;
    while i < bytes.len()
        invariant
            i <= bytes@.len(),
            s@ == hex(bytes@.take(i as int)),
        decreases bytes@.len() - i,
    {
        s.push(hex_char(bytes[i] / 16));
        s.push(hex_char(bytes[i] % 16));
        assert(bytes@.take(i + 1).drop_last() =~= bytes@.take(i as int));
        i = i + 1;
    }
    assert(bytes@.take(i as int) =~= bytes@);
    s
}

/// Hexadecimal takes two digits for each byte, and nothing but digits.
pub proof fn hex_is_digits(bytes: Seq<u8>)
    ensures
        hex(bytes).len() == 2 * bytes.len(),
        forall|i: int|
            0 <= i < hex(bytes).len() ==> {
                ||| '0' <= #[trigger] hex(bytes)[i] <= '9'
                ||| 'a' <= hex(bytes)[i] <= 'f'
            },
    decreases bytes.len(),
{
    if bytes.len() > 0 {
        hex_is_digits(bytes.drop_last());
    }
}

/// The value of a lower-case hexadecimal digit.
pub open spec fn hex_value(c: char) -> int {
    if '0' <= c <= '9' {
        c as int - '0' as int
    } else {
        c as int - 'a' as int + 10
    }
}

/// Every byte is read back from its two digits.
pub proof fn bytes_read_back_from_hexadecimal(bytes: Seq<u8>)
    ensures
        hex(bytes).len() == 2 * bytes.len(),
        forall|i: int|
            0 <= i < bytes.len() ==> #[trigger] bytes[i] == 16 * hex_value(hex(bytes)[2 * i])
                + hex_value(hex(bytes)[2 * i + 1]),
    decreases bytes.len(),
{
    if bytes.len() > 0 {
        let front = bytes.drop_last();
        bytes_read_back_from_hexadecimal(front);
        let b = bytes.last();
        assert(hex_value(hex_digit(b / 16)) == b / 16);
        assert(hex_value(hex_digit(b % 16)) == b % 16);
        assert forall|i: int| 0 <= i < bytes.len() implies #[trigger] bytes[i] == 16 * hex_value(
            hex(bytes)[2 * i],
        ) + hex_value(hex(bytes)[2 * i + 1]) by {
            if i < front.len() {
                assert(bytes[i] == front[i]);
                assert(hex(bytes)[2 * i] == hex(front)[2 * i]);
                assert(hex(bytes)[2 * i + 1] == hex(front)[2 * i + 1]);
            }
        }
    }
}

/// Different bytes have different hexadecimal forms.
pub proof fn hex_is_injective(a: Seq<u8>, b: Seq<u8>)
    requires
        hex(a) == hex(b),
    ensures
        a == b,
    decreases a.len(),
{
    hex_is_digits(a);
    hex_is_digits(b);
    if a.len() > 0 {
        let n = hex(a).len() as int;
        assert(hex(a)[n - 1] == hex_digit(a.last() % 16));
        assert(hex(b)[n - 1] == hex_digit(b.last() % 16));
        assert(hex(a)[n - 2] == hex_digit(a.last() / 16));
        assert(hex(b)[n - 2] == hex_digit(b.last() / 16));
        assert(hex(a).take(n - 2) =~= hex(a.drop_last()));
        assert(hex(b).take(n - 2) =~= hex(b.drop_last()));
        hex_is_injective(a.drop_last(), b.drop_last());
        assert(a.last() == b.last());
        assert(a =~= a.drop_last().push(a.last()));
        assert(b =~= b.drop_last().push(b.last()));
    } else {
        assert(a =~= b);
    }
}

/// A part between the words before it and those behind it.
pub open spec fn put_between(before: Seq<char>, part: Seq<char>, behind: Seq<char>) -> Seq<char> {
    before + part + behind
}

/// Whether one text says of one part, in the same words, what another says of another.
pub open spec fn same_words(
    text: Seq<char>,
    part: Seq<char>,
    other: Seq<char>,
    other_part: Seq<char>,
) -> bool {
    exists|before: Seq<char>, behind: Seq<char>| #[trigger]
        put_between(before, part, behind) == text && put_between(before, other_part, behind)
            == other
}

/// Two parts between the same words are spoken of in the same words.
pub proof fn words_stay(
    before: Seq<char>,
    part: Seq<char>,
    other_part: Seq<char>,
    behind: Seq<char>,
    text: Seq<char>,
    other: Seq<char>,
)
    requires
        text == before + part + behind,
        other == before + other_part + behind,
    ensures
        same_words(text, part, other, other_part),
{
    assert(put_between(before, part, behind) == text);
}

} // verus!
