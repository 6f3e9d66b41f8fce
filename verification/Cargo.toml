[package]
name = "tunnel"
version = "0.1.0"
edition = "2021"
publish = false

[dependencies]
memchr = "=2.8.3"
futures = "=0.3.34"
log = "=0.4.34"
rustls = { version = "=0.23.46", default-features = false, features = ["std", "ring"] }
rustls-pki-types = "=1.15.1"
webpki-roots = "=0.26.11"
