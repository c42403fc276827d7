[package]
name = "ldap_users"
version = "0.1.0"
edition = "2021"
publish = false

[dependencies]
chrono = { version = "0.4", default-features = false, features = ["std"] }
ldap3_proto = "0.4"
tracing = "0.1"
