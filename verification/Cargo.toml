[package]
name = "controlpath_cli"
version = "0.1.0"
edition = "2021"
publish = false

[dependencies]
serde = { version = "1", features = ["derive"] }
serde_json = "1"
serde_yaml = "0.9"
regex = "1"
strsim = "0.11"
rmp-serde = "1"
base64 = "0.22"
ed25519-dalek = "2"
clap = { version = "4", features = ["derive"] }
clap_complete = "4"
dialoguer = "0.11"
thiserror = "1"
atty = "0.2"
notify = "6"
axum = "0.7"
tokio = { version = "1", features = ["rt-multi-thread", "net", "signal", "macros"] }
tower-http = { version = "0.5", features = ["cors"] }
ureq = { version = "2", features = ["json"] }
tera = "1"

