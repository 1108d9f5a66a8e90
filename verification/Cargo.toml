[package]
name = "gh-stack"
version = "0.1.0"
edition = "2021"
publish = false

[dependencies]
clap = "2.33"
console = "0.10"
dialoguer = "0.6"
dotenv = "0.15"
fixedbitset = "0.2"
futures = "0.3"
git2 = "0.13"
petgraph = "0.5"
regex = "1"
reqwest = { version = "0.10", features = ["json"] }
serde = { version = "1.0", features = ["derive"] }
tokio = { version = "0.2", features = ["full"] }
