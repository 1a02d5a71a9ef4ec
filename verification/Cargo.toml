[package]
name = "moviedb_loader"
version = "0.1.0"
edition = "2021"
publish = false

[dependencies]
cassandra-cpp = "*"
csv = "1"
encoding_rs = "0.8"
encoding_rs_io = "0.1"
regex = "1"
tokio = { version = "1", features = ["macros", "rt-multi-thread"] }
