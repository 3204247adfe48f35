[package]
name = "confuse"
version = "0.1.0"
edition = "2021"
publish = false

[dependencies]
async-trait = "=0.1.92"
dokan = "=0.3.1"
dokan-sys = "=0.3.1"
libc = "=0.2.191"
rustix = "=1.1.6"
tokio = { version = "=1.54.1", features = ["rt-multi-thread"] }
widestring = "=0.4.3"
winapi = { version = "=0.3.9", features = ["minwindef", "ntstatus", "securitybaseapi", "winnt"] }
