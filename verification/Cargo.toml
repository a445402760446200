[package]
name = "gnostr_cleaner"
version = "0.1.0"
edition = "2021"
publish = false

[dependencies]
sha2 = "=0.10.9"
nostr-sdk = { version = "=0.44.1", default-features = false }
