[package]
name = "snip"
version = "0.1.0"
edition = "2021"
publish = false

[dependencies]
url = "2"
chrono = "0.4"
clap = { version = "4", features = ["derive"] }
dirs = "6"
serde = { version = "1", features = ["derive"] }
serde_json = "1"
tokio = { version = "1", features = ["rt-multi-thread"] }
ashpd = "0.11"
gtk4 = { version = "0.9", features = ["v4_12"] }
gdk4 = "0.9"
gio = "0.20"
cairo-rs = { version = "0.20", features = ["png"] }
libadwaita = { version = "0.7", features = ["v1_4"] }
