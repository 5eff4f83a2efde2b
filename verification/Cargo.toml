[package]
name = "ddosflow"
version = "0.1.0"
edition = "2021"
publish = false

[dependencies]
pnet = "*"
csv = "*"
serde = { version = "*", features = ["derive"] }
chrono = "*"
ctrlc = "*"
crossbeam-channel = "*"
crossbeam-queue = "*"
parking_lot = "*"
threadpool = "*"
num_cpus = "*"
log = "*"
env_logger = "*"
lazy_static = "*"
object-pool = "*"
socket2 = "*"
