[package]
name = "sp_app"
version = "0.1.0"
edition = "2021"
publish = false

[dependencies]
aus = "=0.1.8"
clap = { version = "=4.6.7", default-features = false, features = ["derive", "error-context", "help", "std", "usage"] }
color-eyre = { version = "=0.6.5", default-features = false }
colorgrad = { version = "=0.9.0", default-features = false }
cpal = "=0.17.3"
derive_more = { version = "=2.1.1", features = ["debug", "from", "into"] }
eframe = { version = "=0.37.0", default-features = false, features = ["default_fonts", "glow", "x11"] }
egui = "=0.37.0"
flume = { version = "=0.12.0", default-features = false, features = ["async"] }
ringbuf = "=0.4.8"
rustfft = "=6.4.1"
thiserror = "=2.0.21"
tokio = { version = "=1.54.1", features = ["macros", "rt", "rt-multi-thread", "signal", "sync", "time"] }
tokio-util = "=0.7.20"
tracing = "=0.1.44"
tracing-subscriber = { version = "=0.3.23", default-features = false, features = ["fmt"] }
