[package]
name = "battery_control"
version = "0.1.0"
edition = "2021"
publish = false

[dependencies]
jk_bms = "=0.5.0"
anker_solix = "=0.4.0"
dalybms = "=0.2.0"
victron_ble = "=1.1.0"
vedirect = "=0.2.0"
async-trait = "=0.1.92"
bitflags = "=2.13.2"
btleplug = "=0.13.5"
clap = { version = "=4.6.7", features = ["derive"] }
env_logger = "=0.11.11"
futures-core = "=0.3.34"
futures-util = "=0.3.34"
libc = "0.2"
log = "=0.4.35"
serde = { version = "=1.0.229", features = ["derive"] }
serde_json = "=1.0.154"
socketcan = "*"
thiserror = "=2.0.21"
tokio = { version = "=1.54.1", features = ["full"] }
tokio-serial = "=5.5.0"
uuid = "=1.29.0"
