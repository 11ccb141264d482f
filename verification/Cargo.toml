[package]
name = "exec_server"
version = "0.1.0"
edition = "2021"
publish = false

[dependencies]
axum = { version = "0.8", default-features = false, features = ["http1", "tokio", "ws"] }
hyper = { version = "1", features = ["http1", "server"] }
hyper-util = { version = "0.1", features = ["http1", "server", "server-auto", "service", "tokio"] }
rcgen = { version = "0.14", default-features = false, features = ["crypto", "ring"] }
rustls = { version = "0.23", default-features = false, features = ["ring", "std", "tls12"] }
rustls-pki-types = "1"
sha2 = "0.10"
thiserror = "2"
tokio = { version = "1", features = ["io-std", "io-util", "macros", "net", "rt-multi-thread"] }
tokio-rustls = { version = "0.26", default-features = false, features = ["ring", "tls12"] }
tower = { version = "0.5", features = ["util"] }
tracing = "0.1"
