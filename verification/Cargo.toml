[package]
name = "subgraph_schema"
version = "0.1.0"
edition = "2021"
publish = false

[dependencies]
anyhow = "1"
graphql-parser = "0.4"
itertools = "0.10"
serde = { version = "1", features = ["derive"] }
thiserror = "1"
