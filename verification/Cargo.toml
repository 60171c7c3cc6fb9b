[package]
name = "elikar_scene"
version = "0.1.0"
edition = "2021"
publish = false

[dependencies]
gltf = { version = "*", default-features = false }
jpeg-decoder = { version = "*", default-features = false }
nalgebra-glm = "*"
png = "*"
xecs = "*"
