[package]
name = "atorsl"
version = "0.1.0"
edition = "2021"
publish = false

[dependencies]
anyhow = "1"
gimli = "0.28.1"
memmap2 = "0.9"
object = "0.32.2"
thiserror = "1"
uuid = "1"
