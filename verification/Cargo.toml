[package]
name = "termmux"
version = "0.1.0"
edition = "2021"
publish = false

[dependencies]
leb128 = "0.2"
zstd = "*"
varbincode = "0.1"
serde = { version = "1", features = ["derive"] }
failure = "0.1"
structopt = "0.3"
libc = "0.2"
lazy_static = "1"
downcast-rs = "1"
open = "*"
filedescriptor = "*"

[dev-dependencies]
base91 = "*"
