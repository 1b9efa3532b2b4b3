[package]
name = "interaction_router"
version = "0.1.0"
edition = "2021"
publish = false

[dependencies]
thiserror = "*"
tower = { version = "*", features = ["util"] }
twilight-interactions = "*"
twilight-model = "*"

[dev-dependencies]
futures = "*"
