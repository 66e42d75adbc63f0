[package]
name = "branch_wipe"
version = "0.1.0"
edition = "2021"
publish = false

[dependencies]
gio = { version = "=0.8.1", features = ["v2_44"] }
glib = "=0.9.3"
gtk = { version = "=0.8.1", features = ["v3_16"] }
