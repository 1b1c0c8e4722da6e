[package]
name = "filegram"
version = "0.1.0"
edition = "2021"
publish = false

[dependencies]
sys-locale = "=0.3.2"
dirs = "=6.0.0"
fs4 = "=0.13.1"
open = "=5.4.5"
opener = { version = "=0.8.5", features = ["reveal"] }
rayon = "=1.12.0"
serde_json = "=1.0.154"
trash = "=5.2.9"
ureq = { version = "=3.5.1", default-features = false, features = ["json", "rustls"] }
zbus = { version = "=5.19.0", default-features = false, features = ["blocking-api", "async-io"] }
iced = { version = "=0.14.0", default-features = false, features = ["tiny-skia", "x11", "canvas", "crisp", "web-colors", "thread-pool"] }
libc = "=0.2.191"
