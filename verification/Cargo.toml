[package]
name = "rpi_open_emulator"
version = "0.1.0"
edition = "2021"
publish = false

[dependencies]
png = "0.17"
anyhow = "1"
serde = { version = "1", features = ["derive"] }
toml = "0.8"
rusqlite = "0.31"
directories = "5"
libc = "0.2"
egui = { version = "0.27", default-features = false, features = ["default_fonts"] }
