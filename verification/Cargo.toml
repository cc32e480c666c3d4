[package]
name = "vm_environment"
version = "0.1.0"
edition = "2021"
publish = false

[dependencies]
anyhow = "1"
arbitrary = { version = "1", features = ["derive"] }
arc-swap = "1"
async-trait = "0.1"
axum = "0.7"
bcs = "0.1"
bytes = "1"
claims = "0.7"
clap = "4"
crossbeam = "0.8"
diesel = { version = "2.1", features = ["postgres", "r2d2"] }
enum_dispatch = "0.3"
libfuzzer-sys = "0.4"
move-core-types = "0.0.3"
once_cell = "1"
parking_lot = "0.12"
rand = "0.7"
serde = { version = "1", features = ["derive"] }
serde_json = "1"
tokio = { version = "1", features = ["net", "rt-multi-thread", "macros"] }
tracing = "0.1"
