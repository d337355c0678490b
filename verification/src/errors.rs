//! What can be wrong with a schema.
use vstd::prelude::*;
use vstd::string::*;
use crate::ast::copy_names;
use crate::seqs;
use crate::text;
use crate::text::join;

verus! {

/// A list of strings that is written with commas between them.
#[derive(Debug, PartialEq, Eq)]
pub struct Strings(pub Vec<String>);

impl View for Strings {
    type V = Seq<Seq<char>>;

    open spec fn view(&self) -> Seq<Seq<char>> {
        seqs::deep(self.0@)
    }
}

impl Clone for Strings {
    fn clone(&self) -> (r: Strings)
        ensures
            r@ == self@,
    {
        Strings(copy_names(&self.0))
    }
}

/// A list of strings as it is written.
pub open spec fn listed(names: Seq<Seq<char>>) -> Seq<char> {
    text::joined(names, ", "@)
}

impl Strings {
    /// The list as it is written.
    pub fn text(&self) -> (r: String)
        ensures
            r@ == listed(self@),
    {
        join(&self.0, ", ")
    }
}

/// What is wrong with a schema.
#[derive(Debug, PartialEq, Eq)]
pub enum SchemaValidationError {
    /// A type implements an interface that is not defined: its name.
    InterfaceUndefined(String),
    /// Types carry no `@entity`: their names.
    EntityDirectivesMissing(Strings),
    /// A type lacks fields of an interface: the type, the interface, the fields.
    InterfaceFieldsMissing(String, String, Strings),
    /// The types that implement an interface have ids of several types: the
    /// interface, the types of the ids.
    InterfaceImplementorsMixId(String, String),
    /// A `@derivedFrom` is wrong: the type, the field, the reason.
    InvalidDerivedFrom(String, String, String),
    /// Types have reserved names: the names.
    UsageOfReservedTypes(Strings),
    SchemaTypeWithFields,
    InvalidSchemaTypeDirectives,
    /// A field has a type that is not defined: the type that has the field, the
    /// field, the type of the field.
    FieldTypeUnknown(String, String, String),
    /// An imported type does not exist: the type, the schema.
    ImportedTypeUndefined(String, String),
    FulltextNameUndefined,
    FulltextNameConflict(String),
    FulltextNameCollision(String),
    FulltextLanguageUndefined,
    FulltextLanguageInvalid(String),
    FulltextAlgorithmUndefined,
    FulltextAlgorithmInvalid(String),
    FulltextIncludeInvalid,
    FulltextIncludeUndefined,
    FulltextIncludeObjectMissing,
    FulltextIncludeEntityMissingOrIncorrectAttributes,
    FulltextIncludedEntityNotFound,
    FulltextIncludedFieldMissingRequiredProperty,
    FulltextIncludedFieldInvalid(String),
}

/// What a `SchemaValidationError` stands for.
#[verifier::ext_equal]
pub enum SchemaValidationErrorView {
    InterfaceUndefined(Seq<char>),
    EntityDirectivesMissing(Seq<Seq<char>>),
    InterfaceFieldsMissing(Seq<char>, Seq<char>, Seq<Seq<char>>),
    InterfaceImplementorsMixId(Seq<char>, Seq<char>),
    InvalidDerivedFrom(Seq<char>, Seq<char>, Seq<char>),
    UsageOfReservedTypes(Seq<Seq<char>>),
    SchemaTypeWithFields,
    InvalidSchemaTypeDirectives,
    FieldTypeUnknown(Seq<char>, Seq<char>, Seq<char>),
    ImportedTypeUndefined(Seq<char>, Seq<char>),
    FulltextNameUndefined,
    FulltextNameConflict(Seq<char>),
    FulltextNameCollision(Seq<char>),
    FulltextLanguageUndefined,
    FulltextLanguageInvalid(Seq<char>),
    FulltextAlgorithmUndefined,
    FulltextAlgorithmInvalid(Seq<char>),
    FulltextIncludeInvalid,
    FulltextIncludeUndefined,
    FulltextIncludeObjectMissing,
    FulltextIncludeEntityMissingOrIncorrectAttributes,
    FulltextIncludedEntityNotFound,
    FulltextIncludedFieldMissingRequiredProperty,
    FulltextIncludedFieldInvalid(Seq<char>),
}

impl View for SchemaValidationError {
    type V = SchemaValidationErrorView;

    open spec fn view(&self) -> SchemaValidationErrorView {
        match self {
            Self::InterfaceUndefined(a) => SchemaValidationErrorView::InterfaceUndefined(a@),
            Self::EntityDirectivesMissing(a) => {
                SchemaValidationErrorView::EntityDirectivesMissing(a@)
            },
            Self::InterfaceFieldsMissing(a, b, c) => {
                SchemaValidationErrorView::InterfaceFieldsMissing(a@, b@, c@)
            },
            Self::InterfaceImplementorsMixId(a, b) => {
                SchemaValidationErrorView::InterfaceImplementorsMixId(a@, b@)
            },
            Self::InvalidDerivedFrom(a, b, c) => {
                SchemaValidationErrorView::InvalidDerivedFrom(a@, b@, c@)
            },
            Self::UsageOfReservedTypes(a) => SchemaValidationErrorView::UsageOfReservedTypes(a@),
            Self::SchemaTypeWithFields => SchemaValidationErrorView::SchemaTypeWithFields,
            Self::InvalidSchemaTypeDirectives => {
                SchemaValidationErrorView::InvalidSchemaTypeDirectives
            },
            Self::FieldTypeUnknown(a, b, c) => {
                SchemaValidationErrorView::FieldTypeUnknown(a@, b@, c@)
            },
            Self::ImportedTypeUndefined(a, b) => {
                SchemaValidationErrorView::ImportedTypeUndefined(a@, b@)
            },
            Self::FulltextNameUndefined => SchemaValidationErrorView::FulltextNameUndefined,
            Self::FulltextNameConflict(a) => SchemaValidationErrorView::FulltextNameConflict(a@),
            Self::FulltextNameCollision(a) => SchemaValidationErrorView::FulltextNameCollision(a@),
            Self::FulltextLanguageUndefined => SchemaValidationErrorView::FulltextLanguageUndefined,
            Self::FulltextLanguageInvalid(a) => {
                SchemaValidationErrorView::FulltextLanguageInvalid(a@)
            },
            Self::FulltextAlgorithmUndefined => {
                SchemaValidationErrorView::FulltextAlgorithmUndefined
            },
            Self::FulltextAlgorithmInvalid(a) => {
                SchemaValidationErrorView::FulltextAlgorithmInvalid(a@)
            },
            Self::FulltextIncludeInvalid => SchemaValidationErrorView::FulltextIncludeInvalid,
            Self::FulltextIncludeUndefined => SchemaValidationErrorView::FulltextIncludeUndefined,
            Self::FulltextIncludeObjectMissing => {
                SchemaValidationErrorView::FulltextIncludeObjectMissing
            },
            Self::FulltextIncludeEntityMissingOrIncorrectAttributes => {
                SchemaValidationErrorView::FulltextIncludeEntityMissingOrIncorrectAttributes
            },
            Self::FulltextIncludedEntityNotFound => {
                SchemaValidationErrorView::FulltextIncludedEntityNotFound
            },
            Self::FulltextIncludedFieldMissingRequiredProperty => {
                SchemaValidationErrorView::FulltextIncludedFieldMissingRequiredProperty
            },
            Self::FulltextIncludedFieldInvalid(a) => {
                SchemaValidationErrorView::FulltextIncludedFieldInvalid(a@)
            },
        }
    }
}

impl SchemaValidationErrorView {
    /// The error as it is told to the user.
    pub open spec fn message(self) -> Seq<char> {
        match self {
            Self::InterfaceUndefined(a) => "Interface `"@ + a + "` not defined"@,
            Self::EntityDirectivesMissing(a) => {
                "@entity directive missing on the following types: `"@
                    + listed(a)
                    + "`"@
            },
            Self::InterfaceFieldsMissing(a, b, c) => {
                "Entity type `"@
                    + a
                    + "` does not satisfy interface `"@
                    + b
                    + "` because it is missing the following fields: "@
                    + listed(c)
            },
            Self::InterfaceImplementorsMixId(a, b) => {
                "Implementors of interface `"@
                    + a
                    + "` use different id types `"@
                    + b
                    + "`. They must all use the same type"@
            },
            Self::InvalidDerivedFrom(a, b, c) => {
                "Field `"@
                    + b
                    + "` in type `"@
                    + a
                    + "` has invalid @derivedFrom: "@
                    + c
            },
            Self::UsageOfReservedTypes(a) => {
                "The following type names are reserved: `"@
                    + listed(a)
                    + "`"@
            },
            Self::SchemaTypeWithFields => {
                "_Schema_ type is only for @fulltext and must not have any fields"@
            },
            Self::InvalidSchemaTypeDirectives => {
                "The _Schema_ type only allows @fulltext directives"@
            },
            Self::FieldTypeUnknown(a, b, c) => {
                "Type `"@
                    + a
                    + "`, field `"@
                    + b
                    + "`: type `"@
                    + c
                    + "` is not defined"@
            },
            Self::ImportedTypeUndefined(a, b) => {
                "Imported type `"@
                    + a
                    + "` does not exist in the `"@
                    + b
                    + "` schema"@
            },
            Self::FulltextNameUndefined => "Fulltext directive name undefined"@,
            Self::FulltextNameConflict(a) => "Fulltext directive name overlaps with type: "@ + a,
            Self::FulltextNameCollision(a) => {
                "Fulltext directive name overlaps with an existing entity field or a top-level query field: "@
                    + a
            },
            Self::FulltextLanguageUndefined => "Fulltext language is undefined"@,
            Self::FulltextLanguageInvalid(a) => "Fulltext language is invalid: "@ + a,
            Self::FulltextAlgorithmUndefined => "Fulltext algorithm is undefined"@,
            Self::FulltextAlgorithmInvalid(a) => "Fulltext algorithm is invalid: "@ + a,
            Self::FulltextIncludeInvalid => "Fulltext include is invalid"@,
            Self::FulltextIncludeUndefined => "Fulltext directive requires an 'include' list"@,
            Self::FulltextIncludeObjectMissing => {
                "Fulltext 'include' list must contain an object"@
            },
            Self::FulltextIncludeEntityMissingOrIncorrectAttributes => {
                "Fulltext 'include' object must contain 'entity' (String) and 'fields' (List) attributes"@
            },
            Self::FulltextIncludedEntityNotFound => {
                "Fulltext directive includes an entity not found on the subgraph schema"@
            },
            Self::FulltextIncludedFieldMissingRequiredProperty => {
                "Fulltext include field must have a 'name' attribute"@
            },
            Self::FulltextIncludedFieldInvalid(a) => {
                "Fulltext entity field, "@
                    + a
                    + ", not found or not a string"@
            },
        }
    }
}

impl SchemaValidationError {
    /// The error as it is told to the user.
    pub fn message(&self) -> (r: String)
        ensures
            r@ == self@.message(),
    {
        match self {
            Self::InterfaceUndefined(a) => {
                let mut s = "Interface `".to_owned();
                s.append(a.as_str());
                s.append("` not defined");
                s
            },
            Self::EntityDirectivesMissing(a) => {
                let mut s = "@entity directive missing on the following types: `".to_owned();
                s.append(a.text().as_str());
                s.append("`");
                s
            },
            Self::InterfaceFieldsMissing(a, b, c) => {
                let mut s = "Entity type `".to_owned();
                s.append(a.as_str());
                s.append("` does not satisfy interface `");
                s.append(b.as_str());
                s.append("` because it is missing the following fields: ");
                s.append(c.text().as_str());
                s
            },
            Self::InterfaceImplementorsMixId(a, b) => {
                let mut s = "Implementors of interface `".to_owned();
                s.append(a.as_str());
                s.append("` use different id types `");
                s.append(b.as_str());
                s.append("`. They must all use the same type");
                s
            },
            Self::InvalidDerivedFrom(a, b, c) => {
                let mut s = "Field `".to_owned();
                s.append(b.as_str());
                s.append("` in type `");
                s.append(a.as_str());
                s.append("` has invalid @derivedFrom: ");
                s.append(c.as_str());
                s
            },
            Self::UsageOfReservedTypes(a) => {
                let mut s = "The following type names are reserved: `".to_owned();
                s.append(a.text().as_str());
                s.append("`");
                s
            },
            Self::SchemaTypeWithFields => {
                "_Schema_ type is only for @fulltext and must not have any fields".to_owned()
            },
            Self::InvalidSchemaTypeDirectives => {
                "The _Schema_ type only allows @fulltext directives".to_owned()
            },
            Self::FieldTypeUnknown(a, b, c) => {
                let mut s = "Type `".to_owned();
                s.append(a.as_str());
                s.append("`, field `");
                s.append(b.as_str());
                s.append("`: type `");
                s.append(c.as_str());
                s.append("` is not defined");
                s
            },
            Self::ImportedTypeUndefined(a, b) => {
                let mut s = "Imported type `".to_owned();
                s.append(a.as_str());
                s.append("` does not exist in the `");
                s.append(b.as_str());
                s.append("` schema");
                s
            },
            Self::FulltextNameUndefined => "Fulltext directive name undefined".to_owned(),
            Self::FulltextNameConflict(a) => {
                let mut s = "Fulltext directive name overlaps with type: ".to_owned();
                s.append(a.as_str());
                s
            },
            Self::FulltextNameCollision(a) => {
                let mut s = "Fulltext directive name overlaps with an existing entity field or a top-level query field: ".to_owned();
                s.append(a.as_str());
                s
            },
            Self::FulltextLanguageUndefined => "Fulltext language is undefined".to_owned(),
            Self::FulltextLanguageInvalid(a) => {
                let mut s = "Fulltext language is invalid: ".to_owned();
                s.append(a.as_str());
                s
            },
            Self::FulltextAlgorithmUndefined => "Fulltext algorithm is undefined".to_owned(),
            Self::FulltextAlgorithmInvalid(a) => {
                let mut s = "Fulltext algorithm is invalid: ".to_owned();
                s.append(a.as_str());
                s
            },
            Self::FulltextIncludeInvalid => "Fulltext include is invalid".to_owned(),
            Self::FulltextIncludeUndefined => {
                "Fulltext directive requires an 'include' list".to_owned()
            },
            Self::FulltextIncludeObjectMissing => {
                "Fulltext 'include' list must contain an object".to_owned()
            },
            Self::FulltextIncludeEntityMissingOrIncorrectAttributes => {
                "Fulltext 'include' object must contain 'entity' (String) and 'fields' (List) attributes".to_owned()
            },
            Self::FulltextIncludedEntityNotFound => {
                "Fulltext directive includes an entity not found on the subgraph schema".to_owned()
            },
            Self::FulltextIncludedFieldMissingRequiredProperty => {
                "Fulltext include field must have a 'name' attribute".to_owned()
            },
            Self::FulltextIncludedFieldInvalid(a) => {
                let mut s = "Fulltext entity field, ".to_owned();
                s.append(a.as_str());
                s.append(", not found or not a string");
                s
            },
        }
    }
}

/// What a check that found nothing wrong, or something, says.
pub open spec fn problem(r: Result<(), SchemaValidationError>) -> Option<SchemaValidationErrorView> {
    match r {
        Ok(()) => None,
        Err(e) => Some(e@),
    }
}

} // verus!
