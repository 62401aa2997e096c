[package]
name = "mtk_flash"
version = "0.1.0"
edition = "2021"
publish = false

[dependencies]
android-sparse-image = "=0.1.3"
anyhow = "=1.0.104"
fastboot-protocol = "=0.4.0"
gpio-cdev = "=0.6.0"
indicatif = "=0.18.6"
mediatek-brom = { version = "=0.2.1", features = ["tokio"] }
tokio = { version = "=1.53.2", features = ["fs", "io-util", "macros", "rt-multi-thread", "signal", "sync", "time"] }
tokio-serial = "=5.5.0"
