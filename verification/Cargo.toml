[package]
name = "openengine"
version = "0.1.0"
edition = "2021"
publish = false

[dependencies]
anyhow = "1"
base64 = "0.22"
bytemuck = { version = "1", features = ["derive"] }
egui = "0.32"
egui-wgpu = { version = "0.32", default-features = false }
egui-winit = { version = "0.32", default-features = false, features = ["x11"] }
fixed = { version = "1", features = ["serde"] }
glam = "0.30"
png = "0.17"
pollster = "0.4"
postcard = { version = "1", features = ["alloc"] }
rayon = "1"
reqwest = { version = "0.12", default-features = false, features = ["blocking", "json"] }
serde = { version = "1", features = ["derive"] }
serde_json = "1"
wasmtime = { version = "29", default-features = false, features = ["cranelift", "runtime", "std"] }
wgpu = { version = "25", default-features = false, features = ["vulkan", "wgsl"] }
winit = { version = "0.30", default-features = false, features = ["x11", "rwh_06"] }
