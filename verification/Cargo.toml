[package]
name = "vaultwarden_ldap"
version = "0.1.0"
edition = "2021"
publish = false

[dependencies]
anyhow = "1.0"
envy = "0.4"
ldap3 = "0.6"
reqwest = "0.9"
serde = { version = "1.0", features = ["derive"] }
thiserror = "1.0"
toml = "0.5"
