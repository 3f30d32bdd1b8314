[package]
name = "wlx_overlay_s"
version = "0.1.0"
edition = "2021"
publish = false

[dependencies]
bytes = "=1.12.1"
serde = { version = "=1.0.229", features = ["derive"] }
postcard = { version = "=1.1.3", features = ["alloc"] }
anyhow = "=1.0.104"
log = "=0.4.35"
uuid = { version = "=1.29.0", features = ["v4"] }
xdg = "=2.5.2"
idmap = "=0.2.22"
clap = { version = "=4.6.7", features = ["derive"] }
ctrlc = "=3.5.2"
sysinfo = "0.31"
serde_yaml = "=0.9.34"
rosc = "*"
