//! What is said of the errors in a schema.
use vstd::prelude::*;
use crate::errors::SchemaValidationErrorView;
use crate::text;

verus! {

/// What each error says, with the names that it holds each in its place, and lists
/// with commas between their items.
pub proof fn law_messages(a: Seq<char>, b: Seq<char>, c: Seq<char>, l: Seq<Seq<char>>)
    ensures
        SchemaValidationErrorView::InterfaceUndefined(a).message()
            == "Interface `"@ + a + "` not defined"@,
        SchemaValidationErrorView::EntityDirectivesMissing(l).message()
            == "@entity directive missing on the following types: `"@ + text::joined(l, ", "@)
            + "`"@,
        SchemaValidationErrorView::InterfaceFieldsMissing(a, b, l).message()
            == "Entity type `"@ + a + "` does not satisfy interface `"@ + b
            + "` because it is missing the following fields: "@ + text::joined(l, ", "@),
        SchemaValidationErrorView::InterfaceImplementorsMixId(a, b).message()
            == "Implementors of interface `"@ + a + "` use different id types `"@ + b
            + "`. They must all use the same type"@,
        SchemaValidationErrorView::InvalidDerivedFrom(a, b, c).message()
            == "Field `"@ + b + "` in type `"@ + a + "` has invalid @derivedFrom: "@ + c,
        SchemaValidationErrorView::UsageOfReservedTypes(l).message()
            == "The following type names are reserved: `"@ + text::joined(l, ", "@) + "`"@,
        SchemaValidationErrorView::SchemaTypeWithFields.message()
            == "_Schema_ type is only for @fulltext and must not have any fields"@,
        SchemaValidationErrorView::InvalidSchemaTypeDirectives.message()
            == "The _Schema_ type only allows @fulltext directives"@,
        SchemaValidationErrorView::FieldTypeUnknown(a, b, c).message()
            == "Type `"@ + a + "`, field `"@ + b + "`: type `"@ + c + "` is not defined"@,
        SchemaValidationErrorView::ImportedTypeUndefined(a, b).message()
            == "Imported type `"@ + a + "` does not exist in the `"@ + b + "` schema"@,
        SchemaValidationErrorView::FulltextNameUndefined.message()
            == "Fulltext directive name undefined"@,
        SchemaValidationErrorView::FulltextNameConflict(a).message()
            == "Fulltext directive name overlaps with type: "@ + a,
        SchemaValidationErrorView::FulltextNameCollision(a).message()
            == "Fulltext directive name overlaps with an existing entity field or a top-level query field: "@
            + a,
        SchemaValidationErrorView::FulltextLanguageUndefined.message()
            == "Fulltext language is undefined"@,
        SchemaValidationErrorView::FulltextLanguageInvalid(a).message()
            == "Fulltext language is invalid: "@ + a,
        SchemaValidationErrorView::FulltextAlgorithmUndefined.message()
            == "Fulltext algorithm is undefined"@,
        SchemaValidationErrorView::FulltextAlgorithmInvalid(a).message()
            == "Fulltext algorithm is invalid: "@ + a,
        SchemaValidationErrorView::FulltextIncludeInvalid.message()
            == "Fulltext include is invalid"@,
        SchemaValidationErrorView::FulltextIncludeUndefined.message()
            == "Fulltext directive requires an 'include' list"@,
        SchemaValidationErrorView::FulltextIncludeObjectMissing.message()
            == "Fulltext 'include' list must contain an object"@,
        SchemaValidationErrorView::FulltextIncludeEntityMissingOrIncorrectAttributes.message()
            == "Fulltext 'include' object must contain 'entity' (String) and 'fields' (List) attributes"@,
        SchemaValidationErrorView::FulltextIncludedEntityNotFound.message()
            == "Fulltext directive includes an entity not found on the subgraph schema"@,
        SchemaValidationErrorView::FulltextIncludedFieldMissingRequiredProperty.message()
            == "Fulltext include field must have a 'name' attribute"@,
        SchemaValidationErrorView::FulltextIncludedFieldInvalid(a).message()
            == "Fulltext entity field, "@ + a + ", not found or not a string"@,
{
}

} // verus!
