[package]
name = "sprite_instancing"
version = "0.1.0"
edition = "2021"
publish = false

[dependencies]
bytemuck = { version = "=1.25.2", features = ["derive"] }
field-offset = "=0.3.6"
