[package]
name = "gql_tracing"
version = "0.1.0"
edition = "2021"
publish = false

[dependencies]
jiff = "0.2"
chrono = "0.4"
async-trait = "0.1"
futures-util = "0.3"
serde = "1"
