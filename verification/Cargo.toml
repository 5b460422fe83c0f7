[package]
name = "pinocchio_util"
version = "0.1.0"
edition = "2021"
publish = false

[dependencies]
num_enum = "=0.7.6"
pinocchio = "=0.9.3"
pinocchio-log = "=0.5.1"
pinocchio-pubkey = "=0.3.0"
pinocchio-system = "=0.3.0"
proc-macro2 = "=1.0.107"
quote = "=1.0.47"
syn = { version = "=2.0.119", features = ["full"] }
