[package]
name = "meowpdf"
version = "1.2.1"
edition = "2021"
publish = false

[dependencies]
base64 = "0.22"
regex-automata = "0.4"
regex = "1"
toml = "0.8"
serde = { version = "1", features = ["derive"] }
crossterm = { version = "0.29", features = ["serde"] }
crossbeam-channel = "0.5"
keybinds = { version = "*", features = ["crossterm", "serde"] }
dirs = "*"
notify = "*"
open = "*"
mupdf = "*"
nix = { version = "*", features = ["term", "ioctl"] }
libc = "0.2"
