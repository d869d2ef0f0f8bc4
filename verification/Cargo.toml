[package]
name = "ultrasonic"
version = "0.1.0"
edition = "2021"
publish = false

[dependencies]
zk-aluvm = { version = "=0.12.0", features = ["std", "stl"] }
aluvm = { version = "=0.12.0", features = ["std", "stl"] }
amplify = "=4.9.0"
commit_verify = { version = "=0.12.1", features = ["stl", "vesper"] }
strict_encoding = "=2.9.1"
strict_types = { version = "=2.9.1", features = ["stl"] }
baid64 = "=0.4.2"
serde = { version = "=1.0.229", features = ["derive"] }
