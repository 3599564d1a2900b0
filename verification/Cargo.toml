[package]
name = "rendezvous"
version = "0.1.0"
edition = "2021"
publish = false

[dependencies]
discv5 = "=0.12.0"
enr = "=0.14.0"
rand = "=0.10.3"
rand_xorshift = "=0.5.0"
redis = { version = "=1.7.1", features = ["tokio-comp"] }
serde = "*"
serde_json = "*"
tokio = { version = "*", features = ["macros", "rt-multi-thread", "time"] }
tracing = "*"
tracing-subscriber = { version = "*", features = ["env-filter", "fmt"] }
if-addrs = "*"
