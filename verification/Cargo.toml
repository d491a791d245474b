[package]
name = "stars"
version = "0.1.0"
edition = "2021"
publish = false

[dependencies]
chrono = "0.4"
crossterm = "0.25"
env_logger = "0.10"
eyre = "0.6"
log = "0.4"
nalgebra = "0.32"
rand = "0.8"
thiserror = "1"
tui = "0.19"
tui-tree-widget = "0.11"
