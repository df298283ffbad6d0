[package]
name = "dog_detector"
version = "0.1.0"
edition = "2021"
publish = false

[dependencies]
image = "*"
serde = { version = "*", features = ["derive"] }
toml = "*"
rumqttc = "*"
tokio = { version = "*", features = ["macros", "rt-multi-thread", "time"] }
directories = "*"
nokhwa = "*"
ndarray = "*"
tensorflow = "*"
