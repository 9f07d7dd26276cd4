[package]
name = "web3_gateway"
version = "0.1.0"
edition = "2021"
publish = false

[dependencies]
keccak-hash = "=0.12.0"
rlp = "=0.6.1"
zeroize = "=1.9.1"
deoxysii = "=0.2.4"
sha2 = "=0.11.1"
ethereum-types = "=0.16.0"
log = "=0.4.34"
failure = "=0.1.8"
parking_lot = "=0.13.0"
lazy_static = "=1.5.1"
futures = "=0.1.31"
tokio = "=0.1.22"
tokio-threadpool = "=0.1.18"
jsonrpc-core = "=18.0.0"
jsonrpc-http-server = "=18.0.0"
jsonrpc-ws-server = "=18.0.0"
