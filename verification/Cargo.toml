[package]
name = "hypr-workstyle"
version = "0.1.0"
edition = "2021"
publish = false

[dependencies]
async-std = { version = "1", features = ["attributes"] }
ctrlc = "3"
dirs = "*"
fslock = "*"
hyprland = "0.3"
log = "0.4"
simple_logger = "*"
toml = "*"
