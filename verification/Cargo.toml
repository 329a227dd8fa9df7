[package]
name = "calx"
version = "0.1.0"
edition = "2021"
publish = false

[dependencies]
chrono = { version = "0.4", features = ["serde"] }
serde = { version = "1", features = ["derive"] }
serde_json = "1"
serde_yml = "*"
csv = "1"
unicode-width = "*"
thiserror = "*"
clap = { version = "4", features = ["derive"] }
clap_complete = "4"
dialoguer = "*"
libc = "0.2"
objc2 = "*"
objc2-event-kit = "*"
objc2-foundation = "*"
block2 = "*"
