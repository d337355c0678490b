[package]
name = "graph_schema"
version = "0.1.0"
edition = "2021"
publish = false

[dependencies]
anyhow = "1.0"
graphql-parser = "0.4"
Inflector = "0.11"
itertools = "0.10"
serde = { version = "1.0", features = ["derive"] }
thiserror = "1.0"
