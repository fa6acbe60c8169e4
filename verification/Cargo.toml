[package]
name = "flipper_ir_dumps"
version = "0.1.0"
edition = "2021"
publish = false

[dependencies]
bitvec = "1"
clap = { version = "4", features = ["derive"] }
color-eyre = "0.6"
csv = "1"
displaydoc = "0.2"
nom = "7"
plotters = { version = "0.3", default-features = false, features = ["bitmap_backend", "bitmap_encoder", "full_palette"] }
thiserror = "1"
