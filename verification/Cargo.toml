[package]
name = "iwled_rs"
version = "0.1.0"
edition = "2021"
publish = false

[dependencies]
anyhow = "*"
rust-ini = "*"
nl80211 = "*"
sysfs-class = "*"
