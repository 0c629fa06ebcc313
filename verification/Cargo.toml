[package]
name = "audiostego"
version = "0.1.0"
edition = "2021"
publish = false

[dependencies]
anyhow = "1"
bitvec = "1"
chacha20poly1305 = "0.10"
clap = { version = "4", features = ["derive"] }
crc32fast = "1"
hound = "3"
num-complex = "0.4"
rand = "0.8"
rand_chacha = "0.3"
realfft = "3"
reed-solomon = "0.2"
rubato = "0.15"
serde = { version = "1", features = ["derive"] }
serde_json = "1"
sha2 = "0.10"
symphonia = "0.5"
tracing = "0.1"
tracing-subscriber = { version = "0.3", features = ["env-filter"] }

[dev-dependencies]
tempfile = "3"
