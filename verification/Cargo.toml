[package]
name = "satty"
version = "0.1.0"
edition = "2021"
publish = false

[dependencies]
base64 = "*"
nix = { version = "*", features = ["user", "fs"] }
tokio = { version = "*", features = ["rt", "rt-multi-thread", "net", "io-util", "time", "signal", "sync"] }
clap = { version = "*", features = ["derive"] }
serde = { version = "*", features = ["derive"] }
toml = "*"
xdg = "*"
gtk4 = "*"
gdk-pixbuf = "*"

[dev-dependencies]
tempfile = "*"
serde_json = "*"
