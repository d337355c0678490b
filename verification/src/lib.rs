//! The GraphQL schema of a subgraph: reading it, preparing it for use, validating
//! it, and making the schema of the API through which the subgraph is queried.

pub mod api_laws;
pub mod api_schema;
pub mod ast;
pub mod block_string_laws;
pub mod block_strings;
pub mod derived;
pub mod derived_laws;
pub mod document;
pub mod document_laws;
pub mod error_laws;
pub mod errors;
pub mod fulltext;
pub mod fulltext_error_laws;
pub mod fulltext_laws;
pub mod fulltext_validation;
pub mod id_laws;
pub mod ids;
pub mod inflect;
pub mod interface_laws;
pub mod interfaces;
pub mod introspection;
pub mod introspection_laws;
pub mod names;
pub mod parser;
pub mod parser_laws;
pub mod schema;
pub mod seqs;
pub mod store;
pub mod store_laws;
pub mod subgraph_id_laws;
pub mod text;
pub mod text_laws;
pub mod type_map;
pub mod validation;
pub mod validity_laws;
