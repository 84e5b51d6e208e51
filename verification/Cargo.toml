[package]
name = "safehold"
version = "0.0.1"
edition = "2021"
publish = false

[dependencies]
aes-gcm = "0.10"
anyhow = "1"
argon2 = "0.5"
atty = "0.2"
base64 = "0.22"
clap = { version = "4", features = ["derive"] }
ctrlc = "3"
directories = "5"
indicatif = "0.17"
once_cell = "1"
owo-colors = "4"
rand = "0.9"
rpassword = "7"
serde = { version = "1", features = ["derive"] }
serde_json = "1"
time = { version = "0.3", features = ["formatting"] }
tokio = { version = "1", features = ["macros", "rt-multi-thread"] }
walkdir = "2"
zeroize = "1"
