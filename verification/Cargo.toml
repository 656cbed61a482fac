[package]
name = "wordmem"
version = "0.1.0"
edition = "2021"
publish = false

[dependencies]
anyhow = "1"
bzip2 = "*"
chrono = "0.4"
clap = { version = "3", features = ["derive"] }
dirs = "*"
hex = "0.4"
imap = "*"
keyring = "1"
lettre = "0.10"
mail-parser = "*"
native-tls = "0.2"
open = "*"
rpassword = "*"
serde = { version = "1", features = ["derive"] }
serde_json = "1"
sqlite = "*"
tar = "0.4"
tempfile = "3"
