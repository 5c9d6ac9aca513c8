[package]
name = "pkm"
version = "0.1.0"
edition = "2021"
publish = false

[dependencies]
base64 = "0.22"
clap = { version = "4", features = ["derive"] }
const-oid = { version = "0.9", features = ["db"] }
der = { version = "0.7", features = ["alloc", "pem", "std"] }
directories = "5"
keyring = "2"
p256 = { version = "0.13", features = ["ecdsa", "pkcs8", "pem"] }
rand_core = { version = "0.6", features = ["getrandom"] }
rpassword = "7"
rusb = { version = "0.9", features = ["vendored"] }
serde = { version = "1", features = ["derive"] }
sha1 = "0.10"
sha2 = "0.10"
spki = { version = "0.7", features = ["alloc"] }
thiserror = "1"
time = { version = "0.3", features = ["formatting"] }
toml = "0.8"
x509-cert = { version = "0.2", features = ["pem", "std"] }
yubihsm = { version = "0.42", features = ["usb"] }
