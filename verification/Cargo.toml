[package]
name = "yubikey_oath"
version = "0.1.0"
edition = "2021"
publish = false

[dependencies]
apdu-core = "*"
base64 = "0.22"
hmac = "0.12"
iso7816-tlv = "*"
ouroboros = "*"
pbkdf2 = "0.12"
pcsc = "2"
regex = "1"
sha1 = "0.10"
sha2 = "0.10"
