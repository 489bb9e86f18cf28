[package]
name = "pogo_hurdling"
version = "0.1.0"
edition = "2021"
publish = false

[dependencies]
rand = "=0.8.8"
bevy = { version = "=0.6.1", default-features = false, features = ["render", "bevy_winit", "png", "x11"] }
bevy_rapier2d = "=0.12.1"
rapier2d = "=0.12.0-alpha.0"
benimator = "=2.2.0"
bevy_asset_loader = "=0.9.0"
bevy-egui-kbgp = "=0.2.1"
ezinput = "=0.2.4"
