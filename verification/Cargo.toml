[package]
name = "freemkv"
version = "0.1.0"
edition = "2021"
publish = false

[dependencies]
gtk4 = { version = "*", features = ["v4_10"] }
isolang = "=2.4.0"
libadwaita = { version = "*", features = ["v1_4"] }
tracing-appender = "=0.2.5"
tracing-subscriber = { version = "=0.3.23", features = ["env-filter"] }
ureq = "=3.5.1"
zip = { version = "=7.4.0", default-features = false, features = ["deflate"] }

[dev-dependencies]
serde_json = "=1.0.154"
