[package]
name = "cargo-docset"
version = "0.1.0"
edition = "2021"
publish = false

[dependencies]
cargo = "=0.96.0"
# cargo 0.96.0 was released with the next five crates at these versions; their
# later releases ask for a newer compiler than cargo 0.96.0 itself does.
cargo-credential-libsecret = "=0.5.6"
cargo-credential-macos-keychain = "=0.4.21"
cargo-credential-wincred = "=0.4.21"
cargo-util = "=0.2.28"
kstring = "=2.0.2"
rusqlite = { version = "=0.38.0", features = ["bundled"] }
snafu = "=0.8.9"
