[package]
name = "clipvault"
version = "0.1.0"
edition = "2021"
publish = false

[dependencies]
base64 = "0.22"
sha2 = "0.10"
sha1 = "0.10"
crc32fast = "1"
serde = { version = "1", features = ["derive"] }
serde_json = "1"
image = { version = "0.25", default-features = false, features = ["bmp", "png"] }
rusqlite = { version = "*", features = ["bundled"] }
zip = { version = "*", default-features = false, features = ["deflate"] }
sevenz-rust2 = "*"
unrar = "*"
pdf-extract = "*"
clipboard-win = "*"
