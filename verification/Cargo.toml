[package]
name = "passkey_auth"
version = "0.1.0"
edition = "2021"
publish = false

[dependencies]
webauthn-rs = "=0.5.5"
uuid = { version = "=1.27.0", features = ["v4"] }
serde_json = "=1.0.151"
chrono = "=0.4.45"

[dev-dependencies]
webauthn-authenticator-rs = { version = "0.5", default-features = false, features = ["softpasskey"] }
