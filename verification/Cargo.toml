[package]
name = "voicedrop-core"
version = "0.1.0"
edition = "2021"
publish = false

[dependencies]
cpal = "*"
encoding_rs = "0.8"
hound = "3"
llama-cpp-2 = "*"
serde = { version = "1", features = ["derive"] }
ureq = { version = "3", features = ["json"] }
whisper-rs = "*"
