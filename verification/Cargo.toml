[package]
name = "kftray_portforward"
version = "0.1.0"
edition = "2021"
publish = false

[dependencies]
anyhow = "1"
futures = "0.3"
hostsfile = "*"
k8s-openapi = { version = "*", features = ["latest"] }
kube = { version = "*", default-features = false, features = ["client"] }
kube-runtime = "*"
log = "0.4"
rand = "0.8"
serde_json = "1"
tokio = { version = "1", features = ["rt", "sync", "macros", "time"] }
whoami = "1"
