[package]
name = "remote_print"
version = "0.1.0"
edition = "2021"
publish = false

[dependencies]
rand = "=0.8.8"
rpassword = "=5.0.1"
rustyline = { version = "=9.1.2", features = ["with-fuzzy"] }
ssh2 = "=0.9.6"
structopt = "=0.3.26"
thiserror = "=1.0.69"
tokio = { version = "=1.54.1", features = ["fs", "io-util", "macros", "rt-multi-thread"] }

[dev-dependencies]
regex = "=1.13.1"
