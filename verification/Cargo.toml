[package]
name = "vrl_resolve"
version = "0.1.0"
edition = "2021"
publish = false

[dependencies]
lru = "=0.19.0"
vrl = { version = "=0.33.1", default-features = false, features = ["compiler", "value", "diagnostic", "stdlib-base", "enable_env_functions", "enable_system_functions", "enable_crypto_functions"] }
serde = { version = "1", features = ["derive"] }
serde_json = "1"
warp = "0.3"
tokio = { version = "1", features = ["macros", "rt-multi-thread"] }
lazy_static = "1"
log = "0.4"
