[package]
name = "jni_codegen"
version = "0.1.0"
edition = "2021"
publish = false

[dependencies]
anyhow = "1"
convert_case = "*"
env_logger = "*"
log = "0.4"
proc-macro2 = "1"
quote = "1"
serde = { version = "1", features = ["derive"] }
serde_json = "1"
structopt = "0.3"
syn = "2"
unicode-ident = "1"
