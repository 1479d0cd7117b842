[package]
name = "cme_md_connector"
version = "0.1.0"
edition = "2021"
publish = false

[dependencies]
arc-swap = "1"
arrayvec = "0.7"
hdrhistogram = { version = "7", default-features = false }
quanta = "0.12"
rtrb = "0.3"
thiserror = "1"
tiny_http = { version = "0.12", default-features = false }
zerocopy = "0.8"
