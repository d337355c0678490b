# graph_schema

The GraphQL schema of a subgraph: reading it, preparing it for use, validating it, and making the
schema of the API through which the subgraph is queried. The library is written in Verus; what its
functions do is stated in their contracts and proved.

| Module | What it holds |
| --- | --- |
| `ast`, `document` | The syntax tree of a schema document, and looking things up in it. |
| `parser`, `block_strings` | Reading a document with `graphql_parser`. |
| `inflect` | Inflecting names with `inflector`. |
| `schema`, `interfaces` | `Schema`: the prepared document, and which types implement which interfaces. |
| `validation`, `derived`, `fulltext_validation` | The checks behind `Schema::validate`. |
| `fulltext` | Fulltext searches that `@fulltext` directives define. |
| `api_schema`, `introspection` | `ApiSchema`: a schema with the introspection types mixed in. |
| `errors`, `ids`, `store`, `names`, `type_map` | The types that these work with. |
| `seqs`, `text` | Sequences and strings. |
| `*_laws` | What holds across functions, as proof functions. |

What is believed without proof stands in `parser` and `inflect`: the functions marked
`external_body`, the names declared with `uninterp spec fn` that they speak of, and the
specifications of two functions of `inflector`.

`app/` puts the library behind `anyhow`, `serde` and `thiserror`.
