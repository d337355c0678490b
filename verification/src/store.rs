//! The types of stored values, and the values that ids are stored as.
use vstd::prelude::*;
use crate::text::same;

verus! {

/// The type of a stored value.
#[derive(Debug, Clone, Copy, PartialEq, Eq, Structural)]
pub enum ValueType {
    Boolean,
    BigInt,
    Bytes,
    BigDecimal,
    Int,
    String,
}

/// The type of the values of a built-in scalar.
pub open spec fn value_type(name: Seq<char>) -> Option<ValueType> {
    if name == "Boolean"@ {
        Some(ValueType::Boolean)
    } else if name == "BigInt"@ {
        Some(ValueType::BigInt)
    } else if name == "Bytes"@ {
        Some(ValueType::Bytes)
    } else if name == "BigDecimal"@ {
        Some(ValueType::BigDecimal)
    } else if name == "Int"@ {
        Some(ValueType::Int)
    } else if name == "String"@ || name == "ID"@ {
        Some(ValueType::String)
    } else {
        None
    }
}

impl ValueType {
    /// The type of the values of the scalar with that name.
    pub fn of_scalar(name: &str) -> (r: Option<ValueType>)
        ensures
            r == value_type(name@),
    {
        if same(name, "Boolean") {
            Some(ValueType::Boolean)
        } else if same(name, "BigInt") {
            Some(ValueType::BigInt)
        } else if same(name, "Bytes") {
            Some(ValueType::Bytes)
        } else if same(name, "BigDecimal") {
            Some(ValueType::BigDecimal)
        } else if same(name, "Int") {
            Some(ValueType::Int)
        } else if same(name, "String") || same(name, "ID") {
            Some(ValueType::String)
        } else {
            None
        }
    }

    /// Whether a built-in scalar has that name.
    pub fn is_scalar(name: &str) -> (r: bool)
        ensures
            r == (value_type(name@) is Some),
    {
        ValueType::of_scalar(name).is_some()
    }
}

/// Why a text is not the hexadecimal form of bytes.
#[derive(Debug, Clone, Copy, PartialEq, Eq, Structural)]
pub enum HexError {
    /// There is half a byte too much.
    OddLength,
    /// A byte of the text, behind its prefix, is no hexadecimal digit.
    InvalidHexCharacter { c: u8, index: usize },
}

/// The value of a hexadecimal digit.
pub open spec fn hex_digit(c: u8) -> Option<u8> {
    if 0x30 <= c <= 0x39 {
        Some((c - 0x30) as u8)
    } else if 0x41 <= c <= 0x46 {
        Some((c - 0x37) as u8)
    } else if 0x61 <= c <= 0x66 {
        Some((c - 0x57) as u8)
    } else {
        None
    }
}

/// The text without the `0x`s at its beginning.
pub open spec fn without_prefix(s: Seq<u8>) -> Seq<u8>
    decreases s.len(),
{
    if s.len() >= 2 && s[0] == 0x30 && s[1] == 0x78 {
        without_prefix(s.skip(2))
    } else {
        s
    }
}

/// Whether the byte at `i` is the first that is no hexadecimal digit.
pub open spec fn first_invalid(s: Seq<u8>, i: int) -> bool {
    &&& 0 <= i < s.len()
    &&& hex_digit(s[i]) is None
    &&& forall|j: int| 0 <= j < i ==> hex_digit(#[trigger] s[j]) is Some
}

/// Whether `r` is what a text in hexadecimal stands for, two digits to a byte
/// and the higher one first, or the reason why it stands for nothing.
pub open spec fn is_decoded(s: Seq<u8>, r: Result<Seq<u8>, HexError>) -> bool {
    if s.len() % 2 != 0 {
        r == Err::<Seq<u8>, _>(HexError::OddLength)
    } else {
        match r {
            Ok(bytes) => {
                &&& 2 * bytes.len() == s.len()
                &&& forall|i: int| 0 <= i < s.len() ==> hex_digit(#[trigger] s[i]) is Some
                &&& forall|i: int|
                    0 <= i < bytes.len() ==> #[trigger] bytes[i] == 16 * hex_digit(s[2 * i])->0
                        + hex_digit(s[2 * i + 1])->0
            },
            Err(HexError::InvalidHexCharacter { c, index }) => first_invalid(s, index as int) && c
                == s[index as int],
            Err(HexError::OddLength) => false,
        }
    }
}

/// Bytes that are stored.
#[derive(Debug, PartialEq, Eq)]
pub struct Bytes(Vec<u8>);

impl View for Bytes {
    type V = Seq<u8>;

    closed spec fn view(&self) -> Seq<u8> {
        self.0@
    }
}

/// The value of a hexadecimal digit.
fn digit(c: u8) -> (r: Option<u8>)
    ensures
        r == hex_digit(c),
{
    if 0x30 <= c && c <= 0x39 {
        Some(c - 0x30)
    } else if 0x41 <= c && c <= 0x46 {
        Some(c - 0x37)
    } else if 0x61 <= c && c <= 0x66 {
        Some(c - 0x57)
    } else {
        None
    }
}

/// What a result says of bytes.
pub open spec fn decoded_view(r: Result<Bytes, HexError>) -> Result<Seq<u8>, HexError> {
    match r {
        Ok(bytes) => Ok(bytes@),
        Err(e) => Err(e),
    }
}

impl Bytes {
    pub fn as_slice(&self) -> (r: &[u8])
        ensures
            r@ == self@,
    {
        self.0.as_slice()
    }

    /// The bytes that a text gives in hexadecimal; any `0x`s at its beginning do
    /// not count.
    pub fn from_hex(s: &str) -> (r: Result<Bytes, HexError>)
        ensures
            is_decoded(without_prefix(vstd::utf8::encode_utf8(s@)), decoded_view(r)),
    {
        let raw = s.as_bytes();
        let ghost all = raw@;
        let mut start: usize = 0;
        assert(all.skip(0) =~= all);
        while start < raw.len() && raw.len() - start >= 2 && raw[start] == 0x30 && raw[start + 1]
            == 0x78
            invariant
                raw@ == all,
                start <= all.len(),
                without_prefix(all) == without_prefix(all.skip(start as int)),
            decreases all.len() - start,
        {
            assert(all.skip(start as int).skip(2) =~= all.skip(start + 2));
            start += 2;
        }
        let ghost digits = all.skip(start as int);
        if (raw.len() - start) % 2 != 0 {
            return Err(HexError::OddLength);
        }
        let mut bytes: Vec<u8> = Vec::new();
        let mut i: usize = start;
        while i < raw.len()
            invariant
                raw@ == all,
                start <= i <= all.len(),
                digits == all.skip(start as int),
                (all.len() - start) % 2 == 0,
                (i - start) % 2 == 0,
                2 * bytes@.len() == i - start,
                without_prefix(all) == digits,
                all == vstd::utf8::encode_utf8(s@),
                forall|j: int| 0 <= j < i - start ==> hex_digit(#[trigger] digits[j]) is Some,
                forall|k: int|
                    0 <= k < bytes@.len() ==> #[trigger] bytes@[k] == 16 * hex_digit(
                        digits[2 * k],
                    )->0 + hex_digit(digits[2 * k + 1])->0,
            decreases all.len() - i,
        {
            let ghost p = i - start;
            assert(digits[p] == all[i as int]);
            assert(digits[p + 1] == all[i + 1]);
            match digit(raw[i]) {
                None => {
                    return Err(HexError::InvalidHexCharacter { c: raw[i], index: i - start });
                },
                Some(high) => match digit(raw[i + 1]) {
                    None => {
                        return Err(
                            HexError::InvalidHexCharacter { c: raw[i + 1], index: i + 1 - start },
                        );
                    },
                    Some(low) => {
                        bytes.push(16 * high + low);
                    },
                },
            }
            i += 2;
        }
        Ok(Bytes(bytes))
    }
}

/// A value that an id is stored as.
#[derive(Debug, PartialEq, Eq)]
pub enum Value {
    String(String),
    Bytes(Bytes),
}

/// What a `Value` stands for.
pub enum ValueView {
    String(Seq<char>),
    Bytes(Seq<u8>),
}

impl View for Value {
    type V = ValueView;

    open spec fn view(&self) -> ValueView {
        match self {
            Value::String(s) => ValueView::String(s@),
            Value::Bytes(b) => ValueView::Bytes(b@),
        }
    }
}

} // verus!
