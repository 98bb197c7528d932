[package]
name = "ugly"
version = "1.0.0"
edition = "2021"
publish = false

[dependencies]
aes-gcm = "0.10"
argon2 = "0.5"
bs58 = "0.5"
clap = { version = "4", features = ["derive"] }
ctrlc = "3"
ed25519-dalek = { version = "2", features = ["rand_core"] }
num_cpus = "1"
rand_core = { version = "0.6", features = ["getrandom"] }
rayon = "1"
rpassword = "7"
thiserror = "1"
zeroize = { version = "1", features = ["derive"] }
