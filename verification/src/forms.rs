//! Splitting a form body into fields and decoding them into a mapping.

use vstd::prelude::*;
use vstd::slice::slice_subrange;
use vstd::utf8::{decode_utf8, encode_utf8_decode_utf8, valid_utf8};
use vstd::string::StringSliceAdditionalSpecFns;
use crate::error::FormError;
use crate::escape::{decoded, replace_special_characters};
use crate::fields::FormResult;

verus! {

/// The byte `=`, which ends a field's name.
pub const EQUALS: u8 = 0x3d;

/// The byte `&`, which ends a field's value.
pub const AMPERSAND: u8 = 0x26;

/// A contiguous range of bytes of the body, from `start` up to `end`
/// exclusive.
#[derive(Clone, Copy, Debug, PartialEq, Eq, Structural)]
pub struct Span {
    /// The offset of the first byte.
    pub start: usize,
    /// The offset just behind the last byte.
    pub end: usize,
}

impl Span {
    /// Whether the span is a range of a buffer of `len` bytes.
    pub open spec fn within(&self, len: nat) -> bool {
        self.start <= self.end <= len
    }

    /// The bytes of `s` that the span covers.
    pub open spec fn of(&self, s: Seq<u8>) -> Seq<u8> {
        s.subrange(self.start as int, self.end as int)
    }
}

/// The offset of the first `b` in `s` at or after `from`, or the length of
/// `s` where there is none.
pub open spec fn find_from(s: Seq<u8>, b: u8, from: int) -> int
    decreases s.len() - from,
{
    if from < 0 || from >= s.len() {
        s.len() as int
    } else if s[from] == b {
        from
    } else {
        find_from(s, b, from + 1)
    }
}

/// [`find_from`] gives the least offset from `from` on that holds `b`.
pub proof fn find_from_is_first(s: Seq<u8>, b: u8, from: int)
    requires
        0 <= from <= s.len(),
    ensures
        from <= find_from(s, b, from) <= s.len(),
        find_from(s, b, from) < s.len() ==> s[find_from(s, b, from)] == b,
        forall|k: int| from <= k < find_from(s, b, from) ==> s[k] != b,
    decreases s.len() - from,
{
    if from < s.len() && s[from] != b {
        find_from_is_first(s, b, from + 1);
    }
}

/// The offset of the first `b` in `data` at or after `from`, or the length
/// of `data` where there is none.
pub fn find_byte(data: &[u8], b: u8, from: usize) -> (at: usize)
    requires
        from <= data@.len(),
    ensures
        at == find_from(data@, b, from as int),
        from <= at <= data@.len(),
{
    let mut at: usize = from;
    while at < data.len() && data[at] != b
        invariant
            from <= at <= data@.len(),
            find_from(data@, b, from as int) == find_from(data@, b, at as int),
        decreases data@.len() - at,
    {
        at += 1;
    }
    at
}

/// The first field span pair put in front of the spans of the rest, or the
/// rest's failure.
pub open spec fn prepend_spans(
    head: Seq<(Span, Span)>,
    rest: Result<Seq<(Span, Span)>, FormError>,
) -> Result<Seq<(Span, Span)>, FormError> {
    match rest {
        Ok(tail) => Ok(head + tail),
        Err(e) => Err(e),
    }
}

/// Where the scan goes on after a value that ends at `amp`: behind the `&`,
/// or at the end of the buffer.
pub open spec fn after_value(s: Seq<u8>, amp: int) -> int {
    if amp < s.len() {
        amp + 1
    } else {
        s.len() as int
    }
}

/// The name and value spans of the fields of `s` from `cursor` on. A name
/// runs up to the first `=`, the value behind it up to the first `&` or to
/// the end of the buffer. A name that no `=` ends is a failure. Nothing
/// follows a `&` at the very end of the buffer.
pub open spec fn spans_from(s: Seq<u8>, cursor: int) -> Result<Seq<(Span, Span)>, FormError>
    decreases s.len() - cursor,
{
    if cursor < 0 || cursor >= s.len() {
        Ok(Seq::empty())
    } else {
        let eq = find_from(s, EQUALS, cursor);
        if eq >= s.len() {
            Err(FormError::MissingSeparator)
        } else {
            let amp = find_from(s, AMPERSAND, eq + 1);
            proof {
                find_from_is_first(s, EQUALS, cursor);
                find_from_is_first(s, AMPERSAND, eq + 1);
            }
            prepend_spans(
                seq![
                    (
                        Span { start: cursor as usize, end: eq as usize },
                        Span { start: (eq + 1) as usize, end: amp as usize },
                    ),
                ],
                spans_from(s, after_value(s, amp)),
            )
        }
    }
}

/// The mapping `acc` with one more field, whose raw name and raw value are
/// given. The name is decoded and must be valid UTF-8; then the value is
/// decoded, to bytes of any kind.
pub open spec fn with_field(acc: Map<Seq<char>, Seq<u8>>, name: Seq<u8>, value: Seq<u8>) -> Result<
    Map<Seq<char>, Seq<u8>>,
    FormError,
> {
    match decoded(name) {
        Err(e) => Err(e),
        Ok(name_bytes) => if !valid_utf8(name_bytes) {
            Err(FormError::InvalidUtf8Name)
        } else {
            match decoded(value) {
                Err(e) => Err(e),
                Ok(value_bytes) => Ok(acc.insert(decode_utf8(name_bytes), value_bytes)),
            }
        },
    }
}

/// The mapping `acc` with the fields that `pairs` mark in `s`, added from
/// first to last, or the failure of the first field that cannot be decoded.
pub open spec fn aggregated(
    s: Seq<u8>,
    pairs: Seq<(Span, Span)>,
    acc: Map<Seq<char>, Seq<u8>>,
) -> Result<Map<Seq<char>, Seq<u8>>, FormError>
    decreases pairs.len(),
{
    if pairs.len() == 0 {
        Ok(acc)
    } else {
        match with_field(acc, pairs[0].0.of(s), pairs[0].1.of(s)) {
            Err(e) => Err(e),
            Ok(more) => aggregated(s, pairs.skip(1), more),
        }
    }
}

/// What the part of `s` from `cursor` on adds to the mapping `acc`, going
/// through the body once: each field is found and decoded before the next
/// is looked at, so the leftmost failure decides.
pub open spec fn parsed_from(s: Seq<u8>, cursor: int, acc: Map<Seq<char>, Seq<u8>>) -> Result<
    Map<Seq<char>, Seq<u8>>,
    FormError,
>
    decreases s.len() - cursor,
{
    if cursor < 0 || cursor >= s.len() {
        Ok(acc)
    } else {
        let eq = find_from(s, EQUALS, cursor);
        if eq >= s.len() {
            Err(FormError::MissingSeparator)
        } else {
            let amp = find_from(s, AMPERSAND, eq + 1);
            proof {
                find_from_is_first(s, EQUALS, cursor);
                find_from_is_first(s, AMPERSAND, eq + 1);
            }
            match with_field(acc, s.subrange(cursor, eq), s.subrange(eq + 1, amp)) {
                Err(e) => Err(e),
                Ok(more) => parsed_from(s, after_value(s, amp), more),
            }
        }
    }
}

/// What a whole form body decodes to.
pub open spec fn parsed(s: Seq<u8>) -> Result<Map<Seq<char>, Seq<u8>>, FormError> {
    parsed_from(s, 0, Map::empty())
}

/// Whether every span of `pairs` is a range of a buffer of `len` bytes.
pub open spec fn spans_within(pairs: Seq<(Span, Span)>, len: nat) -> bool {
    forall|i: int|
        0 <= i < pairs.len() ==> (#[trigger] pairs[i]).0.within(len) && pairs[i].1.within(len)
}

/// Whether a name and the value behind it end at the first delimiter of
/// their kind: the name is free of `=` and an `=` follows it, the value
/// starts behind that `=`, is free of `&`, and runs up to an `&` or to the
/// end of `s`.
pub open spec fn field_delimited(s: Seq<u8>, name: Span, value: Span) -> bool {
    &&& !name.of(s).contains(EQUALS)
    &&& name.end < s.len() && s[name.end as int] == EQUALS
    &&& value.start == name.end + 1
    &&& !value.of(s).contains(AMPERSAND)
    &&& (value.end == s.len() || s[value.end as int] == AMPERSAND)
}

/// Whether every field of `pairs` ends at the first delimiters of `s`.
pub open spec fn spans_delimited(s: Seq<u8>, pairs: Seq<(Span, Span)>) -> bool {
    forall|i: int|
        0 <= i < pairs.len() ==> field_delimited(s, (#[trigger] pairs[i]).0, pairs[i].1)
}

/// Whether the fields of `pairs` follow one another from `cursor` to the end
/// of `s`, with one `&` between two of them and at most one behind the last.
pub open spec fn spans_chained(s: Seq<u8>, pairs: Seq<(Span, Span)>, cursor: int) -> bool {
    if pairs.len() == 0 {
        cursor == s.len()
    } else {
        &&& pairs[0].0.start == cursor
        &&& forall|i: int|
            0 <= i < pairs.len() - 1 ==> (#[trigger] pairs[i + 1]).0.start == pairs[i].1.end + 1
        &&& after_value(s, pairs.last().1.end as int) == s.len()
    }
}

/// The spans that a body is split into lie within the body, none runs past
/// the delimiter that ends it, and together with their delimiters they cover
/// the body from `cursor` on without a gap.
pub proof fn spans_from_well_formed(s: Seq<u8>, cursor: int)
    requires
        0 <= cursor <= s.len() <= usize::MAX,
    ensures
        spans_from(s, cursor) matches Ok(pairs) ==> {
            &&& spans_within(pairs, s.len())
            &&& spans_delimited(s, pairs)
            &&& spans_chained(s, pairs, cursor)
        },
    decreases s.len() - cursor,
{
    if cursor < s.len() {
        let eq = find_from(s, EQUALS, cursor);
        find_from_is_first(s, EQUALS, cursor);
        if eq < s.len() {
            let amp = find_from(s, AMPERSAND, eq + 1);
            find_from_is_first(s, AMPERSAND, eq + 1);
            let next = after_value(s, amp);
            spans_from_well_formed(s, next);
            if let Ok(tail) = spans_from(s, next) {
                let head = (
                    Span { start: cursor as usize, end: eq as usize },
                    Span { start: (eq + 1) as usize, end: amp as usize },
                );
                let pairs = seq![head] + tail;
                assert(spans_from(s, cursor) == Ok::<Seq<(Span, Span)>, FormError>(pairs));
                assert(pairs[0] == head);
                assert forall|i: int| 0 < i < pairs.len() implies #[trigger] pairs[i] == tail[i
                    - 1] by {}
                assert(field_delimited(s, head.0, head.1)) by {
                    if head.0.of(s).contains(EQUALS) {
                        let k = choose|k: int|
                            0 <= k < head.0.of(s).len() && head.0.of(s)[k] == EQUALS;
                        assert(s[cursor + k] == EQUALS);
                    }
                    if head.1.of(s).contains(AMPERSAND) {
                        let k = choose|k: int|
                            0 <= k < head.1.of(s).len() && head.1.of(s)[k] == AMPERSAND;
                        assert(s[eq + 1 + k] == AMPERSAND);
                    }
                }
                assert forall|i: int| 0 <= i < pairs.len() implies {
                    &&& (#[trigger] pairs[i]).0.within(s.len())
                    &&& pairs[i].1.within(s.len())
                    &&& field_delimited(s, pairs[i].0, pairs[i].1)
                } by {
                    if i > 0 {
                        assert(pairs[i] == tail[i - 1]);
                    }
                }
                assert forall|i: int| 0 <= i < pairs.len() - 1 implies (#[trigger] pairs[i
                    + 1]).0.start == pairs[i].1.end + 1 by {
                    assert(pairs[i + 1] == tail[i]);
                    if i > 0 {
                        assert(pairs[i] == tail[i - 1]);
                        assert(tail[(i - 1) + 1] == tail[i]);
                    }
                }
                if tail.len() > 0 {
                    assert(pairs.last() == tail.last());
                } else {
                    assert(pairs.last() == head);
                }
            }
        }
    }
}

/// Going through a body once gives what splitting it first and decoding the
/// spans afterwards gives, wherever the body can be split; a body that cannot
/// be split cannot be decoded either.
pub proof fn parsed_is_aggregated_spans(s: Seq<u8>, cursor: int, acc: Map<Seq<char>, Seq<u8>>)
    requires
        0 <= cursor <= s.len() <= usize::MAX,
    ensures
        spans_from(s, cursor) matches Ok(pairs) ==> parsed_from(s, cursor, acc) == aggregated(
            s,
            pairs,
            acc,
        ),
        spans_from(s, cursor).is_err() ==> parsed_from(s, cursor, acc).is_err(),
    decreases s.len() - cursor,
{
    if cursor < s.len() {
        let eq = find_from(s, EQUALS, cursor);
        find_from_is_first(s, EQUALS, cursor);
        if eq < s.len() {
            let amp = find_from(s, AMPERSAND, eq + 1);
            find_from_is_first(s, AMPERSAND, eq + 1);
            let next = after_value(s, amp);
            let head = (
                Span { start: cursor as usize, end: eq as usize },
                Span { start: (eq + 1) as usize, end: amp as usize },
            );
            let first = with_field(acc, s.subrange(cursor, eq), s.subrange(eq + 1, amp));
            match first {
                Ok(more) => {
                    parsed_is_aggregated_spans(s, next, more);
                    if let Ok(tail) = spans_from(s, next) {
                        let pairs = seq![head] + tail;
                        assert(pairs[0] == head);
                        assert(pairs.skip(1) =~= tail);
                    }
                },
                Err(_) => {
                    if let Ok(tail) = spans_from(s, next) {
                        let pairs = seq![head] + tail;
                        assert(pairs[0] == head);
                    }
                },
            }
        }
    }
}

/// Calls `std::str::from_utf8`. Trusted: the call succeeds exactly on valid
/// UTF-8, and the text it then returns is made of the very bytes given.
#[verifier::external_body]
fn text_from_utf8(bytes: &[u8]) -> (text: Option<&str>)
    ensures
        text.is_some() == valid_utf8(bytes@),
        text matches Some(t) ==> t.spec_bytes() == bytes@,
{
    match std::str::from_utf8(bytes) {
        Ok(t) => Some(t),
        Err(_) => None,
    }
}

/// Decodes a raw name and a raw value and maps the one to the other in
/// `form`. On failure `form` is left as it was.
pub fn add_field(form: &mut FormResult, name: &[u8], value: &[u8]) -> (result: Result<
    (),
    FormError,
>)
    ensures
        match with_field(old(form)@, name@, value@) {
            Ok(more) => result.is_ok() && final(form)@ == more,
            Err(e) => result == Err::<(), FormError>(e) && final(form)@ == old(form)@,
        },
{
    let name_bytes = match replace_special_characters(name) {
        Ok(bytes) => bytes,
        Err(e) => {
            return Err(e);
        },
    };
    let text: String = match text_from_utf8(name_bytes.as_slice()) {
        Some(t) => t.to_owned(),
        None => {
            return Err(FormError::InvalidUtf8Name);
        },
    };
    proof {
        encode_utf8_decode_utf8(text@);
    }
    let value_bytes = match replace_special_characters(value) {
        Ok(bytes) => bytes,
        Err(e) => {
            return Err(e);
        },
    };
    form.insert(text, value_bytes);
    Ok(())
}

/// Accepts every byte: the value of the last field runs to the end of the
/// buffer, whatever it holds.
pub fn t<T>(_byte: T) -> (accepted: bool)
    ensures
        accepted,
{
    true
}

/// Splits a form body into the spans of its names and values, without
/// decoding anything. A body with no byte has no field.
pub fn tokenize(data: &[u8]) -> (result: Result<Vec<(Span, Span)>, FormError>)
    ensures
        match result {
            Ok(pairs) => spans_from(data@, 0) == Ok::<Seq<(Span, Span)>, FormError>(pairs@),
            Err(e) => spans_from(data@, 0) == Err::<Seq<(Span, Span)>, FormError>(e),
        },
        result matches Ok(pairs) ==> {
            &&& spans_within(pairs@, data@.len())
            &&& spans_delimited(data@, pairs@)
            &&& spans_chained(data@, pairs@, 0)
        },
{
    let len: usize = data.len();
    proof {
        spans_from_well_formed(data@, 0);
    }
    let mut pairs: Vec<(Span, Span)> = Vec::new();
    let mut cursor: usize = 0;
    while cursor < len
        invariant
            len == data@.len(),
            cursor <= len,
            spans_from(data@, 0) == prepend_spans(pairs@, spans_from(data@, cursor as int)),
        decreases data@.len() - cursor,
    {
        let eq = find_byte(data, EQUALS, cursor);
        if eq >= len {
            return Err(FormError::MissingSeparator);
        }
        let amp = find_byte(data, AMPERSAND, eq + 1);
        let ghost before = pairs@;
        let pair = (Span { start: cursor, end: eq }, Span { start: eq + 1, end: amp });
        pairs.push(pair);
        proof {
            let rest = spans_from(data@, after_value(data@, amp as int));
            if let Ok(tail) = rest {
                assert(before + (seq![pair] + tail) =~= pairs@ + tail);
            }
        }
        cursor = if amp < len { amp + 1 } else { amp };
    }
    proof {
        assert(pairs@ + Seq::<(Span, Span)>::empty() =~= pairs@);
    }
    Ok(pairs)
}

/// Decodes the fields that `pairs` mark in `data` and collects them into a
/// mapping, a later field replacing an earlier one of the same name. The
/// first field that cannot be decoded fails the whole, and nothing is
/// returned of the fields before it.
pub fn aggregate(data: &[u8], pairs: &Vec<(Span, Span)>) -> (result: Result<FormResult, FormError>)
    requires
        spans_within(pairs@, data@.len()),
    ensures
        match result {
            Ok(form) => aggregated(data@, pairs@, Map::empty()) == Ok::<
                Map<Seq<char>, Seq<u8>>,
                FormError,
            >(form@),
            Err(e) => aggregated(data@, pairs@, Map::empty()) == Err::<
                Map<Seq<char>, Seq<u8>>,
                FormError,
            >(e),
        },
{
    let mut form = FormResult::new();
    let mut i: usize = 0;
    assert(pairs@.skip(0) =~= pairs@);
    while i < pairs.len()
        invariant
            i <= pairs@.len(),
            spans_within(pairs@, data@.len()),
            aggregated(data@, pairs@, Map::empty()) == aggregated(
                data@,
                pairs@.skip(i as int),
                form@,
            ),
        decreases pairs@.len() - i,
    {
        let (name, value) = pairs[i];
        assert(pairs@.skip(i as int)[0] == pairs@[i as int]);
        assert(pairs@.skip(i as int).skip(1) =~= pairs@.skip(i + 1));
        let name_bytes = slice_subrange(data, name.start, name.end);
        let value_bytes = slice_subrange(data, value.start, value.end);
        match add_field(&mut form, name_bytes, value_bytes) {
            Ok(()) => {},
            Err(e) => {
                return Err(e);
            },
        }
        i += 1;
    }
    Ok(form)
}

/// Decodes a whole form body into a mapping from field names to values, in
/// one pass from left to right. A later field replaces an earlier one of the
/// same name. Any failure fails the whole: no part of the mapping is
/// returned.
pub fn parse_form(data: &[u8]) -> (result: Result<FormResult, FormError>)
    ensures
        match result {
            Ok(form) => parsed(data@) == Ok::<Map<Seq<char>, Seq<u8>>, FormError>(form@),
            Err(e) => parsed(data@) == Err::<Map<Seq<char>, Seq<u8>>, FormError>(e),
        },
{
    let mut form = FormResult::new();
    let mut cursor: usize = 0;
    while cursor < data.len()
        invariant
            cursor <= data@.len(),
            parsed(data@) == parsed_from(data@, cursor as int, form@),
        decreases data@.len() - cursor,
    {
        let eq = find_byte(data, EQUALS, cursor);
        if eq >= data.len() {
            return Err(FormError::MissingSeparator);
        }
        let amp = find_byte(data, AMPERSAND, eq + 1);
        let name = slice_subrange(data, cursor, eq);
        let value = slice_subrange(data, eq + 1, amp);
        match add_field(&mut form, name, value) {
            Ok(()) => {},
            Err(e) => {
                return Err(e);
            },
        }
        cursor = if amp < data.len() { amp + 1 } else { amp };
    }
    Ok(form)
}

} // verus!
