[package]
name = "maxima"
version = "0.1.0"
edition = "2021"
publish = false

[dependencies]
base64 = "0.22"
flate2 = "1"
lazy_static = "1"
libc = "0.2"
log = "0.4"
open = "5"
querystring = "1"
regex = "1"
reqwest = { version = "0.12", default-features = false, features = ["json"] }
serde = { version = "1", features = ["derive"] }
serde_json = "1"
tar = "0.4"
thiserror = "1"
tokio = { version = "1", features = ["fs", "io-util", "macros", "net", "process", "rt", "rt-multi-thread", "sync", "time"] }
toml = "0.8"
ureq = "2"
uuid = { version = "1", features = ["v4"] }
widestring = "1"
winapi = { version = "0.3", features = ["errhandlingapi", "minwindef", "shellapi", "winerror", "winnt", "winreg"] }
winreg = "0.52"
xz2 = "0.1"
derive-getters = "0.4"
