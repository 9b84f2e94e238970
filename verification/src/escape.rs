//! Reversal of percent-escapes and of the `+`-for-space substitution on a
//! single run of bytes.

use vstd::prelude::*;
use crate::error::FormError;

verus! {

/// The byte `%`, which opens an escape.
pub const PERCENT: u8 = 0x25;

/// The byte `+`, which stands for a space.
pub const PLUS: u8 = 0x2b;

/// The space byte.
pub const SPACE: u8 = 0x20;

/// The carriage return byte, which an escape never yields.
pub const CARRIAGE_RETURN: u8 = 0x0d;

/// Whether `b` is one of `0-9`, `A-F`, `a-f`.
pub open spec fn is_hex_digit(b: u8) -> bool {
    (0x30 <= b <= 0x39) || (0x41 <= b <= 0x46) || (0x61 <= b <= 0x66)
}

/// The value of the hexadecimal digit `b`, in `0..16`.
pub open spec fn hex_digit_value(b: u8) -> int
    recommends
        is_hex_digit(b),
{
    if 0x30 <= b <= 0x39 {
        b - 0x30
    } else if 0x41 <= b <= 0x46 {
        b - 0x41 + 10
    } else {
        b - 0x61 + 10
    }
}

/// The byte that the escape `%hl` stands for.
pub open spec fn escape_value(h: u8, l: u8) -> u8
    recommends
        is_hex_digit(h),
        is_hex_digit(l),
{
    (hex_digit_value(h) * 16 + hex_digit_value(l)) as u8
}

/// `head` followed by what the rest decoded to, or the rest's failure.
pub open spec fn prepend(head: Seq<u8>, rest: Result<Seq<u8>, FormError>) -> Result<
    Seq<u8>,
    FormError,
> {
    match rest {
        Ok(tail) => Ok(head + tail),
        Err(e) => Err(e),
    }
}

/// What a run of bytes decodes to, read from left to right: `+` becomes a
/// space, `%XX` becomes the byte with hexadecimal value `XX` unless that byte
/// is a carriage return, which is dropped, and every other byte stands for
/// itself. The leftmost malformed escape decides the failure.
pub open spec fn decoded(s: Seq<u8>) -> Result<Seq<u8>, FormError>
    decreases s.len(),
{
    if s.len() == 0 {
        Ok(Seq::empty())
    } else if s[0] == PERCENT {
        if s.len() < 3 {
            Err(FormError::TruncatedEscape)
        } else if !is_hex_digit(s[1]) || !is_hex_digit(s[2]) {
            Err(FormError::InvalidHexDigit)
        } else if escape_value(s[1], s[2]) == CARRIAGE_RETURN {
            decoded(s.skip(3))
        } else {
            prepend(seq![escape_value(s[1], s[2])], decoded(s.skip(3)))
        }
    } else if s[0] == PLUS {
        prepend(seq![SPACE], decoded(s.skip(1)))
    } else {
        prepend(seq![s[0]], decoded(s.skip(1)))
    }
}

/// The value of a hexadecimal digit, or `None` for any other byte.
pub fn hex_value(b: u8) -> (value: Option<u8>)
    ensures
        value.is_some() <==> is_hex_digit(b),
        value matches Some(v) ==> v == hex_digit_value(b) && v < 16,
{
    if 0x30 <= b && b <= 0x39 {
        Some(b - 0x30)
    } else if 0x41 <= b && b <= 0x46 {
        Some(b - 0x41 + 10)
    } else if 0x61 <= b && b <= 0x66 {
        Some(b - 0x61 + 10)
    } else {
        None
    }
}

/// Unfolds [`decoded`] on the part of `s` from `i` on, when `s[i]` is a
/// byte that stands for one output byte.
proof fn decoded_step_plain(s: Seq<u8>, i: int)
    requires
        0 <= i < s.len(),
        s[i] != PERCENT,
    ensures
        decoded(s.skip(i)) == prepend(
            seq![if s[i] == PLUS { SPACE } else { s[i] }],
            decoded(s.skip(i + 1)),
        ),
{
    assert(s.skip(i).skip(1) =~= s.skip(i + 1));
}

/// Unfolds [`decoded`] on the part of `s` from `i` on, when a whole
/// well-formed escape starts at `i`.
proof fn decoded_step_escape(s: Seq<u8>, i: int)
    requires
        0 <= i,
        i + 3 <= s.len(),
        s[i] == PERCENT,
        is_hex_digit(s[i + 1]),
        is_hex_digit(s[i + 2]),
    ensures
        decoded(s.skip(i)) == if escape_value(s[i + 1], s[i + 2]) == CARRIAGE_RETURN {
            decoded(s.skip(i + 3))
        } else {
            prepend(seq![escape_value(s[i + 1], s[i + 2])], decoded(s.skip(i + 3)))
        },
{
    assert(s.skip(i).skip(3) =~= s.skip(i + 3));
}

/// Decoding adds no byte: the output is never longer than the input.
pub proof fn decoded_is_no_longer(s: Seq<u8>)
    ensures
        decoded(s) matches Ok(bytes) ==> bytes.len() <= s.len(),
    decreases s.len(),
{
    if s.len() > 0 {
        if s[0] == PERCENT {
            if s.len() >= 3 {
                decoded_is_no_longer(s.skip(3));
            }
        } else {
            decoded_is_no_longer(s.skip(1));
        }
    }
}

/// A run without `%` and `+` decodes to itself.
pub proof fn decoded_of_plain(s: Seq<u8>)
    requires
        !s.contains(PERCENT),
        !s.contains(PLUS),
    ensures
        decoded(s) == Ok::<Seq<u8>, FormError>(s),
    decreases s.len(),
{
    if s.len() == 0 {
        assert(s =~= Seq::<u8>::empty());
    } else {
        let rest = s.skip(1);
        assert(s[0] != PERCENT && s[0] != PLUS);
        assert forall|b: u8| rest.contains(b) implies s.contains(b) by {
            let k = choose|k: int| 0 <= k < rest.len() && rest[k] == b;
            assert(s[k + 1] == b);
        }
        decoded_of_plain(rest);
        assert(seq![s[0]] + rest =~= s);
    }
}

/// Decoding is not idempotent: some run decodes to bytes that decode to
/// something else again, so output must never be decoded a second time.
pub proof fn decoded_is_not_idempotent()
    ensures
        exists|s: Seq<u8>, once: Seq<u8>|
            decoded(s) == Ok::<Seq<u8>, FormError>(once) && decoded(once) != Ok::<
                Seq<u8>,
                FormError,
            >(once),
{
    let s: Seq<u8> = seq![PERCENT, 0x32u8, 0x42u8];
    let once: Seq<u8> = seq![PLUS];
    assert(s.skip(3) =~= Seq::<u8>::empty());
    assert(escape_value(0x32u8, 0x42u8) == PLUS);
    assert(decoded(s.skip(3)) == Ok::<Seq<u8>, FormError>(Seq::empty()));
    assert(seq![PLUS] + Seq::<u8>::empty() =~= once);
    assert(decoded(s) == Ok::<Seq<u8>, FormError>(once));
    assert(once.skip(1) =~= Seq::<u8>::empty());
    assert(decoded(once.skip(1)) == Ok::<Seq<u8>, FormError>(Seq::empty()));
    assert(seq![SPACE] + Seq::<u8>::empty() =~= seq![SPACE]);
    assert(decoded(once) == Ok::<Seq<u8>, FormError>(seq![SPACE]));
    assert(seq![SPACE][0] != once[0]);
}

/// Decodes one run of bytes: reverses the percent-escapes and turns `+` into
/// a space. An escape that yields a carriage return adds nothing to the
/// output. Fails on the leftmost escape that is cut short or is not made of
/// two hexadecimal digits.
pub fn replace_special_characters(data: &[u8]) -> (result: Result<Vec<u8>, FormError>)
    ensures
        match result {
            Ok(bytes) => decoded(data@) == Ok::<Seq<u8>, FormError>(bytes@),
            Err(e) => decoded(data@) == Err::<Seq<u8>, FormError>(e),
        },
{
    let mut buf: Vec<u8> = Vec::new();
    let mut i: usize = 0;
    assert(data@.skip(0) =~= data@);
    while i < data.len()
        invariant
            i <= data.len(),
            decoded(data@) == prepend(buf@, decoded(data@.skip(i as int))),
        decreases data.len() - i,
    {
        let c: u8 = data[i];
        let ghost before = buf@;
        if c == PERCENT {
            if data.len() - i < 3 {
                return Err(FormError::TruncatedEscape);
            }
            let high = hex_value(data[i + 1]);
            let low = hex_value(data[i + 2]);
            match (high, low) {
                (Some(h), Some(l)) => {
                    let value: u8 = h * 16 + l;
                    proof {
                        decoded_step_escape(data@, i as int);
                    }
                    if value != CARRIAGE_RETURN {
                        buf.push(value);
                        proof {
                            let rest = decoded(data@.skip(i + 3));
                            if let Ok(tail) = rest {
                                assert(before + (seq![value] + tail) =~= buf@ + tail);
                            }
                        }
                    }
                    i += 3;
                },
                _ => {
                    return Err(FormError::InvalidHexDigit);
                },
            }
        } else {
            let out: u8 = if c == PLUS { SPACE } else { c };
            buf.push(out);
            proof {
                decoded_step_plain(data@, i as int);
                let rest = decoded(data@.skip(i + 1));
                if let Ok(tail) = rest {
                    assert(before + (seq![out] + tail) =~= buf@ + tail);
                }
            }
            i += 1;
        }
    }
    proof {
        assert(buf@ + Seq::<u8>::empty() =~= buf@);
    }
    Ok(buf)
}

} // verus!
