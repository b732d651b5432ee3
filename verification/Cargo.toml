[package]
name = "iox2_zenoh_tunnel"
version = "0.1.0"
edition = "2021"
publish = false

[dependencies]
iceoryx2 = "*"
iceoryx2-services-discovery = "*"
zenoh = { version = "*", default-features = false }
