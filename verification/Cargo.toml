[package]
name = "operator"
version = "0.1.0"
edition = "2021"
publish = false

[dependencies]
anyhow = "1"
base64 = "0.22"
chrono = "0.4"
clap = { version = "4", features = ["derive"] }
futures-util = "0.3"
hex = "0.4"
http = "1"
json-patch = "4"
jsonptr = "0.7"
k8s-openapi = { version = "0.26", features = ["v1_33", "schemars"] }
kube = { version = "2", default-features = false, features = ["client", "runtime", "derive", "openssl-tls"] }
log = "0.4"
oci-client = { version = "0.15", default-features = false, features = ["native-tls"] }
oci-spec = "0.8"
openssl = "0.10"
schemars = "1"
semver = { version = "1", features = ["serde"] }
serde = { version = "1", features = ["derive"] }
serde_json = { version = "1", features = ["preserve_order"] }
thiserror = "2"
tokio = { version = "1", features = ["macros", "rt-multi-thread"] }
tower = { version = "0.5", features = ["util"] }
