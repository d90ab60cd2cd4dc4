[package]
name = "webdav-server"
version = "0.1.0"
edition = "2021"
publish = false

[dependencies]
bytes = "1"
clap = "2"
env_logger = "0.6"
futures = "0.3"
headers = "=0.3.9"
http = "=0.2.12"
hyper = { version = "0.14", features = ["server", "http1", "tcp", "stream"] }
lazy_static = "1"
libc = "0.2"
log = "0.4"
net2 = "0.2"
serde = "1"
serde_derive = "1"
tokio = { version = "1", features = ["rt-multi-thread", "net"] }
toml = "0.5"
webdav-handler = "=0.2.0"
