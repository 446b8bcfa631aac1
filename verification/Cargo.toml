[package]
name = "ckicp_minter"
version = "0.1.0"
edition = "2021"
publish = false

[dependencies]
candid = "=0.10.39"
ic-canister-log = "=0.2.0"
ic-cdk = "=0.13.6"
ic-cdk-macros = "=0.9.0"
ic-stable-structures = "=0.5.6"
icrc-ledger-types = "=0.2.0"
k256 = "=0.13.4"
rustic = "=0.1.9"
rustic-macros = "=0.1.6"
serde = { version = "1", features = ["derive"] }
serde_bytes = "=0.11.19"
serde_json = "=1.0.154"
sha2 = "=0.10.9"
zeroize = "=1.9.1"
