[package]
name = "pg_rows"
version = "0.1.0"
edition = "2021"
publish = false

[dependencies]
postgres-protocol = "0.6"
postgres-types = "0.2"
fallible-iterator = "0.2"
heck = "0.5"
syn = { version = "2", features = ["full"] }
quote = "1"
proc-macro2 = "1"
proc-macro-crate = "3"

[dev-dependencies]
bytes = "1"
