[package]
name = "ledger_auth"
version = "0.1.0"
edition = "2021"
publish = false

[dependencies]
tari_crypto = "=0.16.12"
digest = "=0.9.0"
rand = "0.7"
ledger-transport = "=0.11.0"
ledger-transport-hid = "=0.11.0"
ledger-zondax-generic = "=0.11.2"
futures = "=0.3.34"
once_cell = "=1.21.4"
