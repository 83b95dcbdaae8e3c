[package]
name = "rpc_fabric"
version = "0.1.0"
edition = "2021"
publish = false

[dependencies]
petgraph = "=0.8.3"
pathdiff = "=0.2.3"
dashmap = "=6.2.1"
time = "0.3"
serde = { version = "1", features = ["derive"] }
serde_json = "1"
tokio = { version = "1", features = ["rt-multi-thread", "macros", "io-util", "net", "sync"] }
futures = "0.3"
async-trait = "0.1"
async-stream = "0.3"
thiserror = "1"
tracing = "0.1"
quote = "1"
syn = { version = "2", features = ["full"] }
proc-macro2 = "1"
prettyplease = "0.2"
