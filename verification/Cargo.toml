[package]
name = "digidoc"
version = "0.1.0"
edition = "2021"
publish = false

[dependencies]
anyhow = "1"
base64 = "0.22"
chrono = "*"
k256 = { version = "*", features = ["ecdsa", "pkcs8"] }
p256 = { version = "*", features = ["ecdsa", "pkcs8"] }
quick-xml = { version = "0.39", features = ["serialize"] }
reqwest = { version = "*", default-features = false }
roxmltree = "*"
rsa = "0.10.0-rc.0"
serde = { version = "1", features = ["derive"] }
sha1 = "*"
sha2 = "0.11.0-rc.0"
thiserror = "*"
tracing = "*"
x509-parser = "*"
xml-sec = "=0.1.8"
xml_serde = "*"
zip = { version = "*", default-features = false, features = ["deflate"] }
