[package]
name = "escpresso"
version = "0.1.0"
edition = "2021"
publish = false

[dependencies]
anyhow = "=1.0.104"
clap = { version = "=4.6.7", features = ["derive"] }
eframe = { version = "=0.29.1", default-features = false, features = ["default_fonts", "glow", "x11"] }
encoding_rs = "=0.8.44"
image = { version = "=0.25.10", default-features = false, features = ["png"] }
oem_cp = "=2.1.2"
qrcode = { version = "=0.14.1", default-features = false }
rxing = { version = "=0.9.3", default-features = false, features = ["encoders", "oned", "pdf417", "datamatrix", "encoding_rs"] }
tokio = { version = "=1.54.1", features = ["rt-multi-thread", "net", "io-util"] }
