[package]
name = "mochi_scheduler"
version = "0.1.0"
edition = "2021"
publish = false

[dependencies]
anyhow = "1"
chrono = { version = "0.4", features = ["serde"] }
clap = { version = "4", features = ["derive"] }
colored = "*"
directories = "*"
interprocess = { version = "2", features = ["tokio"] }
libc = "0.2"
serde = { version = "1", features = ["derive"] }
serde_json = "1"
terminal_size = "*"
tokio = { version = "1", features = ["fs", "io-util", "macros", "process", "rt-multi-thread", "signal", "sync", "time"] }
windows-sys = { version = "*", features = ["Win32_Foundation", "Win32_Security", "Win32_System_JobObjects", "Win32_System_Threading"] }
