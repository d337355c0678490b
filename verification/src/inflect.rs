//! Inflecting names with `inflector`.
use vstd::prelude::*;

verus! {

/// What `inflector` makes of a name in camel case.
pub uninterp spec fn camel_case(name: Seq<char>) -> Seq<char>;

/// What `inflector` takes for the plural of a name.
pub uninterp spec fn plural(name: Seq<char>) -> Seq<char>;

/// `inflector::cases::camelcase::to_camel_case`, which looks at nothing but the
/// name.
pub assume_specification[ inflector::cases::camelcase::to_camel_case ](
    non_camelized_string: &str,
) -> (r: String)
    ensures
        r@ == camel_case(non_camelized_string@),
;

/// `inflector::string::pluralize::to_plural`, which looks at nothing but the
/// name: a list of words that have no plural, a list of exceptions, and a fixed
/// list of rules on endings.
pub assume_specification[ inflector::string::pluralize::to_plural ](
    non_plural_string: &str,
) -> (r: String)
    ensures
        r@ == plural(non_plural_string@),
;

} // verus!
