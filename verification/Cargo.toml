[package]
name = "tofubot"
version = "0.1.0"
edition = "2021"
publish = false

[dependencies]
dogstatsd = "=0.6.2"
time = "=0.1.45"
serde = "=1.0.229"
serde_derive = "=1.0.229"
toml = "=0.4.10"
lazy_static = "=1.5.1"
log = "=0.4.35"
kankyo = "=0.2.0"
pretty_env_logger = "=0.2.5"
typemap = "=0.3.3"
sys-info = "=0.5.10"
bson = "=0.12.3"
serenity = "=0.7.8"
mongodb = "=0.3.10"
reqwest = "=0.9.24"
