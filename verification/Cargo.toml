[package]
name = "mp_game_net"
version = "0.1.0"
edition = "2021"
publish = false

[dependencies]
anyhow = "1"
byteorder = "1"
clap = { version = "4", features = ["derive"] }
console = "*"
log = "0.4"
rand = "0.9"
simple_moving_average = "*"
tokio = { version = "1", features = ["macros", "rt-multi-thread", "signal", "time"] }
tracing-subscriber = { version = "0.3", features = ["env-filter"] }
zstd = "0.13"
