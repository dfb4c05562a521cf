[package]
name = "floem_css"
version = "0.1.0"
edition = "2021"
publish = false

[dependencies]
smallvec = { version = "1", features = ["const_new"] }
regex = "1"
peniko = "0.2"
notify = "6.1"
crossbeam-channel = "0.5"
log = "0.4"
thiserror = "1"
syn = "2"
quote = "1"
proc-macro2 = "1"
