[package]
name = "geode_codegen"
version = "0.1.0"
edition = "2021"
publish = false

[dependencies]
broma-rs = "=0.2.0"
windows = { version = "=0.58.0", features = ["Win32_Foundation", "Win32_System_LibraryLoader"] }
