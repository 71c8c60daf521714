[package]
name = "sap_odata"
version = "0.1.0"
edition = "2021"
publish = false

[dependencies]
base64 = "0.21"
reqwest = { version = "0.11", features = ["blocking", "json"] }
serde_json = "1"
