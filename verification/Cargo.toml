[package]
name = "coerceo"
version = "1.0.0"
edition = "2021"
publish = false

[dependencies]
glium = "0.25"
imgui = "0.1"
imgui-glium-renderer = "0.1"
imgui-sys = "0.1"
imgui-winit-support = "0.1"
