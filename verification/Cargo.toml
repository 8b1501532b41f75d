[package]
name = "rift_workspaces"
version = "0.1.0"
edition = "2021"
publish = false

[dependencies]
objc2-app-kit = { version = "=0.3.2", default-features = false, features = ["std", "libc", "NSRunningApplication"] }
objc2-core-foundation = { version = "=0.3.2", default-features = false, features = ["std", "CFCGTypes"] }
regex = "=1.13.1"
serde = { version = "=1.0.229", features = ["derive"] }
serde_with = "=3.24.0"
slotmap = { version = "=1.1.1", features = ["serde"] }
tracing = "=0.1.44"
