[package]
name = "kelpie_planner"
version = "0.1.0"
edition = "2021"
publish = false

[dependencies]
gtk4 = "0.9"
libadwaita = "0.7"
gl = "0.14"
log = "0.4"
gettext-rs = "0.7"
