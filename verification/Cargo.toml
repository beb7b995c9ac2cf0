[package]
name = "rustracing_jaeger"
version = "0.7.0"
edition = "2021"
publish = false

[dependencies]
percent-encoding = "=2.3.2"
rand = "=0.10.3"
hostname = "=0.4.2"
rustracing = "=0.6.0"
crossbeam-channel = "=0.5.17"
trackable = "=1.3.0"

[dev-dependencies]
thrift_codec = "=0.3.2"
