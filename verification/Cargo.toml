[package]
name = "runeroster_core"
version = "0.1.0"
edition = "2021"
publish = false

[dependencies]
base64 = "=0.22.1"
sha2 = "=0.10.9"
rand = "=0.8.8"
urlencoding = "=2.1.3"
uuid = { version = "=1.29.0", features = ["v4", "serde"] }
serde = { version = "=1.0.229", features = ["derive"] }
serde_json = "=1.0.154"
reqwest = { version = "=0.12.28", default-features = false, features = ["json", "rustls-tls"] }
keyring = "=3.6.3"
open = "=5.4.5"
iced = { version = "=0.14.0", default-features = false, features = ["tiny-skia", "image-without-codecs", "tokio", "x11"] }
# Decoders for the news thumbnails (PNG and JPEG) behind iced's `image-without-codecs` widget;
# iced's own `image` feature would bring every codec and exceed the package limit.
image = { version = "=0.25.10", default-features = false, features = ["png", "jpeg"] }
