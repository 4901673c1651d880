[package]
name = "kube-client-ext"
version = "0.1.0"
edition = "2021"
publish = false

[dependencies]
async-trait = "=0.1.92"
either = "=1.19.0"
k8s-openapi = { version = "=0.27.1", features = ["latest"] }
k8s-openapi-ext = "=0.27.5"
kube-client = { version = "3", default-features = false, features = ["client"] }
