[package]
name = "bank_network"
version = "0.1.0"
edition = "2021"
publish = false

[dependencies]
uuid = { version = "=0.8.2", features = ["v4", "serde"] }
rand = "=0.7.3"
rand_chacha = "=0.2.2"
rust-argon2 = "=0.8.3"
base64 = "=0.13.1"
serde = { version = "=1.0.229", features = ["derive"] }
serde_json = "=1.0.154"
chrono = { version = "=0.4.45", features = ["serde"] }
log = "=0.4.35"
simplelog = "=0.8.0"
mio = { version = "=0.7.14", features = ["os-poll", "net"] }
rustls = "=0.19.1"
webpki = "=0.21.4"
text_io = "=0.1.13"
prost = "=0.6.1"
prost-derive = "=0.6.1"
bigdecimal = { version = "=0.1.2", features = ["serde"] }
diesel = { version = "=1.4.8", features = ["postgres", "chrono", "uuidv07", "numeric"] }
dotenv = "=0.15.0"
