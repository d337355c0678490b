//! What holds of bytes in hexadecimal, and of the scalars whose values are stored.
use vstd::prelude::*;
use crate::store;
use crate::store::{HexError, ValueType};

verus! {

/// The digit for a value.
pub open spec fn digit_of(n: u8) -> u8 {
    if n < 10 {
        (n + 0x30) as u8
    } else {
        (n + 0x57) as u8
    }
}

/// Bytes in hexadecimal.
pub open spec fn hex_text(bytes: Seq<u8>) -> Seq<u8> {
    Seq::new(
        2 * bytes.len(),
        |i: int|
            if i % 2 == 0 {
                digit_of((bytes[i / 2] / 16) as u8)
            } else {
                digit_of((bytes[i / 2] % 16) as u8)
            },
    )
}

proof fn lemma_digit(n: u8)
    requires
        n < 16,
    ensures
        store::hex_digit(digit_of(n)) == Some(n),
        digit_of(n) != 0x78,
{
}

/// Bytes in hexadecimal stand for the bytes.
pub proof fn law_hex_text_is_decoded(bytes: Seq<u8>)
    ensures
        store::is_decoded(hex_text(bytes), Ok(bytes)),
{
    let s = hex_text(bytes);
    assert forall|i: int| 0 <= i < s.len() implies store::hex_digit(#[trigger] s[i]) is Some by {
        lemma_digit((bytes[i / 2] / 16) as u8);
        lemma_digit((bytes[i / 2] % 16) as u8);
    }
    assert forall|i: int| 0 <= i < bytes.len() implies #[trigger] bytes[i] == 16 * store::hex_digit(
        s[2 * i],
    )->0 + store::hex_digit(s[2 * i + 1])->0 by {
        assert((2 * i) / 2 == i && (2 * i) % 2 == 0);
        assert((2 * i + 1) / 2 == i && (2 * i + 1) % 2 == 1);
        lemma_digit((bytes[i] / 16) as u8);
        lemma_digit((bytes[i] % 16) as u8);
    }
}

/// A prefix `0x` before bytes in hexadecimal does not count.
pub proof fn law_hex_prefix_does_not_count(bytes: Seq<u8>)
    ensures
        store::without_prefix(hex_text(bytes)) == hex_text(bytes),
        store::without_prefix(seq![0x30u8, 0x78u8] + hex_text(bytes)) == hex_text(bytes),
{
    let s = hex_text(bytes);
    if s.len() >= 2 {
        assert(s[1] == digit_of((bytes[0] % 16) as u8));
        lemma_digit((bytes[0] % 16) as u8);
    }
    law_prefixes(s);
}

/// A text in hexadecimal stands for one thing, or is refused for one reason.
pub proof fn law_decoding_is_determined(
    s: Seq<u8>,
    a: Result<Seq<u8>, HexError>,
    b: Result<Seq<u8>, HexError>,
)
    requires
        store::is_decoded(s, a),
        store::is_decoded(s, b),
    ensures
        a == b,
{
    if s.len() % 2 == 0 {
        match (a, b) {
            (Ok(x), Ok(y)) => {
                assert forall|i: int| 0 <= i < x.len() implies x[i] == y[i] by {
                    assert(x[i] == 16 * store::hex_digit(s[2 * i])->0 + store::hex_digit(
                        s[2 * i + 1],
                    )->0);
                    assert(y[i] == 16 * store::hex_digit(s[2 * i])->0 + store::hex_digit(
                        s[2 * i + 1],
                    )->0);
                }
                assert(x =~= y);
            },
            (
                Err(HexError::InvalidHexCharacter { c: _, index: i }),
                Err(HexError::InvalidHexCharacter { c: _, index: j }),
            ) => {
                if i < j {
                    assert(store::hex_digit(s[i as int]) is Some);
                }
                if j < i {
                    assert(store::hex_digit(s[j as int]) is Some);
                }
            },
            _ => {},
        }
    }
}

/// Whether a byte is a hexadecimal digit, a small letter or a capital one.
pub open spec fn is_digit(c: u8) -> bool {
    ||| 0x30 <= c < 0x30 + 10
    ||| 0x41 <= c < 0x41 + 6
    ||| 0x61 <= c < 0x61 + 6
}

/// Each digit has its value: those from `0` on count from nothing, the letters
/// from `a` and from `A` on from ten, and no other byte is a digit.
pub proof fn law_digits(c: u8, n: u8)
    ensures
        store::hex_digit(c) is Some <==> is_digit(c),
        store::hex_digit(c) == Some(n) <==> {
            ||| n < 10 && c == 0x30 + n
            ||| 10 <= n < 16 && c == 0x61 + (n - 10)
            ||| 10 <= n < 16 && c == 0x41 + (n - 10)
        },
{
}

/// Any number of prefixes `0x` do not count, and nothing else is taken off.
pub proof fn law_prefixes(s: Seq<u8>)
    ensures
        store::without_prefix(seq![0x30u8, 0x78u8] + s) == store::without_prefix(s),
        !(s.len() >= 2 && s[0] == 0x30 && s[1] == 0x78) ==> store::without_prefix(s) == s,
{
    assert((seq![0x30u8, 0x78u8] + s).skip(2) =~= s);
}

/// A text stands for bytes exactly where it is even in length and has digits
/// alone: two for each byte, of which the first counts sixteen times.
pub proof fn law_decoded_bytes(s: Seq<u8>, bytes: Seq<u8>)
    ensures
        store::is_decoded(s, Ok(bytes)) <==> {
            &&& s.len() == 2 * bytes.len()
            &&& forall|i: int| 0 <= i < s.len() ==> is_digit(#[trigger] s[i])
            &&& forall|i: int|
                0 <= i < bytes.len() ==> #[trigger] bytes[i] == 16 * store::hex_digit(s[2 * i])->0
                    + store::hex_digit(s[2 * i + 1])->0
        },
{
    assert forall|i: int| 0 <= i < s.len() implies is_digit(#[trigger] s[i]) == (store::hex_digit(
        s[i],
    ) is Some) by {
        law_digits(s[i], 0);
    }
    if store::is_decoded(s, Ok(bytes)) {
        assert forall|i: int| 0 <= i < s.len() implies is_digit(#[trigger] s[i]) by {
            assert(store::hex_digit(s[i]) is Some);
        }
    }
}

/// The scalars whose values are stored, and as what; `ID` is stored as strings
/// are.
pub proof fn law_value_types(name: Seq<char>)
    ensures
        store::value_type("Boolean"@) == Some(ValueType::Boolean),
        store::value_type("BigInt"@) == Some(ValueType::BigInt),
        store::value_type("Bytes"@) == Some(ValueType::Bytes),
        store::value_type("BigDecimal"@) == Some(ValueType::BigDecimal),
        store::value_type("Int"@) == Some(ValueType::Int),
        store::value_type("String"@) == Some(ValueType::String),
        store::value_type("ID"@) == Some(ValueType::String),
        store::value_type(name) is Some <==> (name == "Boolean"@ || name == "BigInt"@ || name
            == "Bytes"@ || name == "BigDecimal"@ || name == "Int"@ || name == "String"@ || name
            == "ID"@),
{
    reveal_strlit("Boolean");
    reveal_strlit("BigInt");
    reveal_strlit("Bytes");
    reveal_strlit("BigDecimal");
    reveal_strlit("Int");
    reveal_strlit("String");
    reveal_strlit("ID");
    assert("Boolean"@.len() == 7 && "BigInt"@.len() == 6 && "Bytes"@.len() == 5 && "BigDecimal"@.len()
        == 10 && "Int"@.len() == 3 && "String"@.len() == 6 && "ID"@.len() == 2);
    assert("BigInt"@[0] == 'B' && "String"@[0] == 'S');
}

} // verus!
