[package]
name = "resumec"
version = "0.1.0"
edition = "2021"
publish = false

[dependencies]
url = "2"
serde = { version = "1", features = ["derive"] }
serde_json = "1"
serde_yaml = "0.9"
toml = "0.8"
thiserror = "2"
clap = { version = "4", features = ["derive"] }
clap_complete = "4"
directories = "6"
docx-rs = "0.4"
printpdf = "0.8"
reqwest = { version = "0.12", default-features = false, features = ["blocking", "rustls-tls"] }
