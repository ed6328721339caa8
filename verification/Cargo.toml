[package]
name = "eeprom_transfer"
version = "0.1.0"
edition = "2021"
publish = false

[dependencies]
crc = "*"
clap = { version = "*", features = ["derive"] }
i2cdev = "*"
