[package]
name = "ratty"
version = "0.1.0"
edition = "2021"
publish = false

[dependencies]
arboard = { version = "=3.7.0", default-features = false }
bevy = { version = "=0.19.1", default-features = false, features = ["std", "bevy_window"] }
clap = { version = "=4.6.7", features = ["derive"] }
crossbeam = "=0.8.5"
parley = "=0.10.0"
parley_ratatui = "=0.3.4"
serde_json = "1"
toml = "=0.9.8"
urlencoding = "=2.1.3"
vt100 = "=0.16.2"
