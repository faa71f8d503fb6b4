[package]
name = "ecverify"
version = "0.1.0"
edition = "2021"
publish = false

[dependencies]
elliptic-curve = { version = "=0.8.5", features = ["arithmetic", "digest", "pem"] }
signature = { version = "=1.3.2", features = ["digest-preview"] }

[dev-dependencies]
p256 = { version = "=0.7.3", default-features = false, features = ["arithmetic"] }
sha2 = "=0.9.9"
