[package]
name = "fdb-ch-proto-export"
version = "0.1.0"
edition = "2021"
publish = false

[dependencies]
regex = "=1.13.1"
serde = { version = "=1.0.229", features = ["derive"] }
serde_json = "=1.0.154"
protofish = "=0.5.3"
foundationdb = { version = "=0.11.0", features = ["embedded-fdb-include", "fdb-7_1"] }
futures = "=0.3.34"
tokio = { version = "=1.54.1", features = ["full"] }
tokio-postgres = "=0.7.18"
tracing = "=0.1.44"
tracing-subscriber = "=0.3.23"
structopt = "=0.3.26"
confy = "=2.0.0"
os_type = "=2.6.0"
lazy_static = "=1.5.1"
openssl = "*"
postgres-openssl = "*"
