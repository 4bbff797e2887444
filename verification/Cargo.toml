[package]
name = "zflow"
version = "0.1.0"
edition = "2021"
publish = false

[dependencies]
anyhow = "1"
clap = { version = "4", features = ["derive"] }
eframe = { version = "*", default-features = false, features = ["default_fonts", "glow", "x11"] }
evdev = "=0.13.2"
getrandom = "=0.3.4"
libc = "0.2"
mdns-sd = "=0.21.7"
mio = { version = "1", features = ["os-poll", "os-ext"] }
nix = { version = "*", features = ["fs", "user"] }
quinn = "*"
rcgen = "=0.14.10"
sd-notify = "=0.5.0"
serde = { version = "1", features = ["derive"] }
serde_json = "1"
sha2 = "=0.10.9"
thiserror = "2"
tokio = { version = "1", features = ["rt", "rt-multi-thread", "sync", "time", "macros", "net", "io-util", "process"] }
toml = "=1.1.8"
tracing = "0.1"
zbus = "=5.19.0"
