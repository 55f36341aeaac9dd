[package]
name = "photosquid"
version = "0.1.0"
edition = "2021"
publish = false

[dependencies]
nalgebra-glm = { version = "=0.21.0", features = ["serde-serialize"] }
angular-units = { version = "=0.2.4", features = ["serde"] }
interpolation = "=0.3.0"
palette = "=0.7.7"
raster = "=0.2.0"
serde = { version = "=1.0.229", features = ["derive"] }
lyon = "=1.0.19"
itertools = "=0.15.0"
lazy_static = "=1.5.1"
more-asserts = "=0.3.1"
native-dialog = "=0.9.7"
