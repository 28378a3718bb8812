[package]
name = "rsop"
version = "0.1.0"
edition = "2021"
publish = false

[dependencies]
anyhow = "*"
clap = { version = "*", features = ["derive"] }
crossbeam-utils = "*"
log = "*"
serde = { version = "*", features = ["derive"] }
shlex = "*"
simple_logger = "*"
tempfile = "*"
termion = "*"
thiserror = "*"
toml = "*"
tree_magic_mini = "*"
url = "*"
xdg = "*"
