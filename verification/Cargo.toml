[package]
name = "wait"
version = "0.1.0"
edition = "2021"
publish = false

[dependencies]
regex = "=1.13.1"
utfx = "=0.1.0"
serde = { version = "1", features = ["derive"] }
serde_json = "1"
sysinfo = { version = "0.32", default-features = false, features = ["system"] }
registry = "1"
log = "0.4"
open = "5"
simple-logging = "2"
egui = "0.30"
egui_extras = { version = "0.30", features = ["file", "image"] }
egui-notify = "0.18"
egui_json_tree = "0.10"
