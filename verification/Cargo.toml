[package]
name = "iconic"
version = "0.1.0"
edition = "2021"
publish = false

[dependencies]
image = { version = "0.25", default-features = false, features = ["png", "jpeg", "tiff", "gif", "webp", "bmp", "ico"] }
resvg = "*"
log = "0.4"
gtk4 = "*"
libadwaita = "*"
gio = "*"
cairo-rs = "*"
librsvg = "*"
gettext-rs = "*"
