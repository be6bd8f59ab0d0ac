[package]
name = "degrugger"
version = "0.1.0"
edition = "2021"
publish = false

[dependencies]
gimli = "=0.34.0"
object = "=0.40.0"
iced-x86 = "=1.21.0"
nix = { version = "=0.31.3", features = ["ptrace", "process", "signal"] }
linux-personality = "=2.0.0"
imgui = { version = "=0.12.0", features = ["docking", "tables-api"] }
mint = "=0.5.9"
