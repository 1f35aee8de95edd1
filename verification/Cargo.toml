[package]
name = "win-security-identifier"
version = "0.1.0"
edition = "2021"
publish = false

[dependencies]
arrayvec = "0.7"
serde = "1"
thiserror = "2"
num_enum = "0.7"
syn = "2"
quote = "1"
proc-macro2 = "1"
proc-macro-crate = "3"
smallvec = "1"
widestring = "1"
windows-sys = { version = "0.59", features = ["Win32_Foundation", "Win32_Security", "Win32_Security_Authorization", "Win32_System_Threading"] }
