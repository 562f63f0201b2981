[package]
name = "avocado_core"
version = "0.1.0"
edition = "2021"
publish = false

[dependencies]
syn = { version = "=0.14.9", features = ["full", "extra-traits"] }
proc-macro2 = "=0.4.30"
quote = "=0.6.13"
bson = "=0.12.3"
mongodb = "=0.3.10"
serde = { version = "=1.0.229", features = ["derive"] }
serde_json = { version = "=1.0.154", features = ["preserve_order"] }
backtrace = "=0.3.76"
typemap = "=0.3.3"
bitflags = "=1.3.2"
uuid = { version = "=0.7.4", features = ["v4"] }
linked-hash-map = "=0.5.6"
magnet_schema = "=0.7.0"
