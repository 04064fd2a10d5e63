[package]
name = "chronicle"
version = "0.1.0"
edition = "2021"
publish = false

[dependencies]
block2 = "=0.6.2"
chrono = "=0.4.45"
core-foundation = "=0.10.1"
core-graphics = "=0.25.0"
dispatch2 = "=0.3.1"
foreign-types = "=0.5.0"
log = "=0.4.35"
objc2 = "=0.6.5"
objc2-app-kit = "=0.3.2"
objc2-avf-audio = "=0.3.2"
objc2-core-foundation = "=0.3.2"
objc2-core-media = "=0.3.2"
objc2-foundation = "=0.3.2"
objc2-screen-capture-kit = "=0.3.2"
objc2-vision = "=0.3.2"
ogg = "=0.9.2"
opus = "=0.3.1"
r2d2 = "=0.8.10"
r2d2_sqlite = "=0.35.0"
rusqlite = { version = "=0.40.2", features = ["bundled"] }
serde = { version = "=1.0.229", features = ["derive"] }
serde_json = "=1.0.154"
sha1 = "=0.10.7"
thiserror = "=2.0.21"
tokio = { version = "=1.54.1", features = ["full"] }
tokio-util = "=0.7.20"
whisper-rs = "=0.14.4"
