[package]
name = "forest_vm"
version = "0.1.0"
edition = "2021"
publish = false

[dependencies]
anyhow = "=1.0.104"
cid = { version = "=0.11.3", default-features = false, features = ["std"] }
fvm = { version = "=4.8.4", default-features = false }
fvm_ipld_blockstore = "=0.3.2"
fvm_ipld_encoding = "=0.5.4"
fvm_shared = { version = "=4.8.4", default-features = false }
log = "=0.4.35"
lru = "=0.8.1"
multihash-codetable = { version = "=0.2.2", default-features = false, features = ["blake2b"] }
num-bigint = "=0.4.8"
num-traits = "=0.2.19"
tokio = { version = "=1.54.1", features = ["sync"] }
