[package]
name = "http_mtls_proxy"
version = "0.1.0"
edition = "2021"
publish = false

[dependencies]
anyhow = "1"
clap = { version = "4", features = ["derive"] }
env_logger = "0.11"
hyper = { version = "1", features = ["client", "server", "http1"] }
hyper-util = { version = "0.1", features = ["tokio"] }
log = "0.4"
regex = "1"
rustls = "0.22"
rustls-pemfile = "2"
rustls-pki-types = "1"
tokio = { version = "1", features = ["rt-multi-thread", "macros", "net"] }
tokio-rustls = "0.25"
url = "2"
urlpattern = "0.2"
webpki-roots = "0.26"
