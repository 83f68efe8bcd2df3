[package]
name = "sshcli"
version = "0.1.0"
edition = "2021"
publish = false

[dependencies]
base64 = "0.22"
serde = { version = "1", features = ["derive"] }
serde_json = "1"
toml = "0.8"
directories = "5"
keyring = "3"
alacritty_terminal = "*"
portable-pty = "*"
tokio = { version = "1", features = ["full"] }
russh = "*"
russh-sftp = "*"
