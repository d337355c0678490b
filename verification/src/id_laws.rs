//! What holds of the names of deployments, and of the values that ids are stored as.
use vstd::prelude::*;
use crate::ast::{DefinitionView, FieldView, ObjectTypeView};
use crate::document;
use crate::ids;
use crate::ids::EntityKey;
use crate::schema;
use crate::schema::IdError;
use crate::store;
use crate::store::Value;
use crate::store_laws;

verus! {

/// Whether the entities of the type of a key have ids of a type with that name.
pub open spec fn has_ids_of(doc: Seq<DefinitionView>, key: EntityKey, base: Seq<char>) -> bool {
    document::object_type(doc, key.entity_type@) matches Some(t) && document::field(
        t.fields,
        "id"@,
    ) matches Some(f) && f.field_type.base() == base
}

/// An id of type `ID` or `String` is stored as the string that it is, whatever it
/// looks like, and never refused.
pub proof fn law_string_ids(doc: Seq<DefinitionView>, key: EntityKey, r: Result<Value, IdError>)
    requires
        has_ids_of(doc, key, "ID"@) || has_ids_of(doc, key, "String"@),
    ensures
        schema::is_id_value(doc, key, r) <==> (r matches Ok(v) && v@ == store::ValueView::String(
            key.entity_id@,
        )),
{
}

/// Bytes come out, or that an id is not in hexadecimal, only where the ids are of
/// type `Bytes`.
pub proof fn law_only_bytes_are_decoded(
    doc: Seq<DefinitionView>,
    key: EntityKey,
    r: Result<Value, IdError>,
    t: ObjectTypeView,
    f: FieldView,
)
    requires
        schema::is_id_value(doc, key, r),
        r matches Ok(Value::Bytes(_)) || r matches Err(IdError::Hex(_)),
        document::object_type(doc, key.entity_type@) == Some(t) ==> document::field(t.fields, "id"@)
            == Some(f),
    ensures
        document::object_type(doc, key.entity_type@) is Some,
        document::object_type(doc, key.entity_type@) == Some(t) ==> f.field_type.base() == "Bytes"@,
{
}

/// An id of type `Bytes` in hexadecimal, with or without `0x` before it, is stored
/// as the bytes.
pub proof fn law_byte_ids(
    doc: Seq<DefinitionView>,
    key: EntityKey,
    bytes: Seq<u8>,
    r: Result<Value, IdError>,
)
    requires
        has_ids_of(doc, key, "Bytes"@),
        ({
            let raw = vstd::utf8::encode_utf8(key.entity_id@);
            raw == store_laws::hex_text(bytes) || raw == seq![0x30u8, 0x78u8]
                + store_laws::hex_text(bytes)
        }),
    ensures
        schema::is_id_value(doc, key, r) <==> (r matches Ok(v) && v@ == store::ValueView::Bytes(
            bytes,
        )),
{
    lemma_bases();
    store_laws::law_hex_text_is_decoded(bytes);
    store_laws::law_hex_prefix_does_not_count(bytes);
    let s = store_laws::hex_text(bytes);
    match r {
        Ok(Value::Bytes(b)) => {
            if store::is_decoded(s, Ok(b@)) {
                store_laws::law_decoding_is_determined(s, Ok(b@), Ok(bytes));
            }
        },
        Err(IdError::Hex(e)) => {
            if store::is_decoded(s, Err(e)) {
                store_laws::law_decoding_is_determined(s, Err(e), Ok(bytes));
            }
        },
        _ => {},
    }
}

proof fn lemma_bases()
    ensures
        "Bytes"@ != "ID"@,
        "Bytes"@ != "String"@,
{
    reveal_strlit("Bytes");
    reveal_strlit("ID");
    reveal_strlit("String");
    assert("Bytes"@.len() == 5 && "ID"@.len() == 2 && "String"@.len() == 6);
}

/// An id of type `Bytes` with a digit too many is refused for its length, and one
/// with a character that is no digit for the first such character.
pub proof fn law_wrong_byte_ids(
    doc: Seq<DefinitionView>,
    key: EntityKey,
    r: Result<Value, IdError>,
    i: int,
)
    requires
        has_ids_of(doc, key, "Bytes"@),
        schema::is_id_value(doc, key, r),
    ensures
        ({
            let s = store::without_prefix(vstd::utf8::encode_utf8(key.entity_id@));
            &&& s.len() % 2 != 0 <==> r == Err::<Value, _>(IdError::Hex(store::HexError::OddLength))
            &&& s.len() % 2 == 0 && 0 <= i < s.len() && !store_laws::is_digit(s[i]) && (forall|
                j: int,
            |
                0 <= j < i ==> store_laws::is_digit(#[trigger] s[j])) ==> (r matches Err(
                IdError::Hex(store::HexError::InvalidHexCharacter { c, index }),
            ) && c == s[i] && index == i)
        }),
{
    lemma_bases();
    let s = store::without_prefix(vstd::utf8::encode_utf8(key.entity_id@));
    if s.len() % 2 == 0 && 0 <= i < s.len() && !store_laws::is_digit(s[i]) && (forall|j: int|
        0 <= j < i ==> store_laws::is_digit(#[trigger] s[j])) {
        store_laws::law_digits(s[i], 0);
        assert(store::hex_digit(s[i]) is None);
        if let Err(IdError::Hex(store::HexError::InvalidHexCharacter { c, index })) = r {
            store_laws::law_digits(s[index as int], 0);
            if index < i {
                assert(store_laws::is_digit(s[index as int]));
            }
            if i < index {
                assert(store::hex_digit(s[i]) is Some);
            }
        }
    }
}

/// An id of any other type is refused, for the type; so is one of an entity type
/// that does not exist.
pub proof fn law_refused_ids(
    doc: Seq<DefinitionView>,
    key: EntityKey,
    base: Seq<char>,
    r: Result<Value, IdError>,
)
    ensures
        has_ids_of(doc, key, base) && base != "ID"@ && base != "String"@ && base != "Bytes"@ ==> (
        schema::is_id_value(doc, key, r) <==> (r matches Err(IdError::IllegalType(message))
            && message@ == "Entity type "@ + key.entity_type@ + " uses illegal type "@ + base
            + " for id column"@)),
        document::object_type(doc, key.entity_type@) is None ==> (schema::is_id_value(doc, key, r)
            <==> (r matches Err(IdError::UnknownType(message)) && message@ == "Entity "@
            + key.entity_type@ + "["@ + key.entity_id@ + "]: unknown entity type `"@
            + key.entity_type@ + "`"@)),
{
}

/// A text names a deployment exactly where it has 46 characters at most, all of
/// them letters, digits and underscores of ASCII, and is not `subgraphs`.
pub proof fn law_deployment_hashes(s: Seq<char>)
    ensures
        ids::is_deployment_hash(s) <==> {
            &&& s.len() < 47
            &&& s != "subgraphs"@
            &&& forall|i: int|
                0 <= i < s.len() ==> {
                    ||| 'a' <= #[trigger] s[i] <= 'z'
                    ||| 'A' <= s[i] <= 'Z'
                    ||| '0' <= s[i] <= '9'
                    ||| s[i] == '_'
                }
        },
{
    assert forall|i: int| 0 <= i < s.len() implies ids::is_hash_char(#[trigger] s[i]) == {
        ||| 'a' <= s[i] <= 'z'
        ||| 'A' <= s[i] <= 'Z'
        ||| '0' <= s[i] <= '9'
        ||| s[i] == '_'
    } by {
        vstd::utf8::char_u32_cast(s[i], s[i] as u32);
    }
    if ids::is_deployment_hash(s) {
        assert forall|i: int| 0 <= i < s.len() implies {
            ||| 'a' <= #[trigger] s[i] <= 'z'
            ||| 'A' <= s[i] <= 'Z'
            ||| '0' <= s[i] <= '9'
            ||| s[i] == '_'
        } by {
            assert(ids::is_hash_char(s[i]));
        }
    }
}

} // verus!
