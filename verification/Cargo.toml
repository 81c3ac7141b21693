[package]
name = "pop3_client"
version = "0.1.0"
edition = "2021"
publish = false

[dependencies]
bytes = "1"
rustls = "0.19"
webpki = "0.21"
webpki-roots = "0.21"
thiserror = "1"
