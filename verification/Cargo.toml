[package]
name = "eguiplotlib"
version = "0.1.0"
edition = "2021"
publish = false

[dependencies]
egui = "*"
egui_plot = "*"
egui_inspect = "*"
