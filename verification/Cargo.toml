[package]
name = "openlab_app_rest"
version = "0.1.0"
edition = "2021"
publish = false

[dependencies]
zeroize = "*"
time = { version = "*", features = ["serde", "formatting", "parsing"] }
serde = { version = "*", features = ["derive"] }
serde_json = "*"
serde_norway = "*"
clap = { version = "*", features = ["derive"] }
tokio = { version = "*", features = ["rt-multi-thread", "macros", "fs", "signal", "net", "time"] }
poem = "*"
openidconnect = "*"
oauth2 = "*"
libc = "*"
