[package]
name = "staccato"
version = "0.1.0"
edition = "2021"
publish = false

[dependencies]
anyhow = "1"
clap = { version = "4", default-features = false, features = ["std", "derive", "help", "usage", "error-context"] }
crossbeam-channel = "0.5"
crossterm = "*"
directories = "*"
ebur128 = "0.1"
hex = "0.4"
hostname = "*"
if-addrs = "*"
image = { version = "0.25", default-features = false, features = ["jpeg", "png"] }
lofty = "*"
mdns-sd = { version = "*", default-features = false }
quinn = { version = "0.11", default-features = false, features = ["runtime-tokio", "rustls-ring"] }
rand = "0.8"
ratatui = { version = "*", default-features = false, features = ["crossterm", "layout-cache", "underline-color"] }
ratatui-image = { version = "*", default-features = false, features = ["crossterm"] }
rcgen = "0.13"
rodio = { version = "0.22", default-features = false, features = ["flac", "mp3", "mp4", "vorbis", "wav"] }
rusqlite = { version = "*", features = ["bundled"] }
rustls = { version = "0.23", default-features = false, features = ["ring", "std"] }
serde = { version = "1", features = ["derive"] }
serde_json = "1"
sha2 = "0.10"
soulseek-rs-lib = "*"
throbber-widgets-tui = "*"
tokio = { version = "1", features = ["rt-multi-thread", "macros", "net", "time", "fs", "io-util", "sync", "signal"] }
tracing = "0.1"
tracing-subscriber = { version = "0.3", default-features = false, features = ["fmt", "env-filter"] }
tui-equalizer = "*"
walkdir = "2"
