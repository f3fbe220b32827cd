[package]
name = "magic_wormhole"
version = "0.1.0"
edition = "2021"
publish = false

[dependencies]
anyhow = "=1.0.104"
hex = "=0.4.3"
hkdf = "=0.12.4"
log = "=0.4.34"
pnet = "=0.35.0"
rand = "=0.8.8"
serde_json = "=1.0.154"
sha2 = "=0.10.9"
sodiumoxide = "=0.2.7"
spake2 = "=0.4.0"
url = "=2.5.8"
ws = "=0.9.2"
