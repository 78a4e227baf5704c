[package]
name = "sfz_engine"
version = "0.1.0"
edition = "2021"
publish = false

[dependencies]
log = "=0.4.34"
rand = "=0.10.3"
wmidi = "=3.1.0"
