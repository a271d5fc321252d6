[package]
name = "ndc_calcite"
version = "0.1.0"
edition = "2021"
publish = false

[dependencies]
serde_json = "=1.0.151"
serde = { version = "=1.0.229", features = ["derive"] }
jni = { version = "=0.22.4", features = ["invocation"] }
