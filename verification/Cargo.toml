[package]
name = "beiwagen"
version = "0.1.0"
edition = "2021"
publish = false

[dependencies]
argh = "=0.1.19"
colour = "=2.1.0"
indicatif = { version = "=0.18.6", features = ["rayon"] }
rayon = "=1.12.0"
scraper = "=0.27.0"
serde = { version = "=1.0.229", features = ["derive"] }
serde_json = "=1.0.151"
sha2 = "=0.11.0"
toml = "=1.1.7"
ureq = "=3.4.2"
zip = "=8.6.0"
