[package]
name = "evtx_extractor"
version = "0.1.0"
edition = "2021"
publish = false

[dependencies]
aws-config = { version = "*", default-features = false }
awssnapio = "*"
chrono = { version = "*", default-features = false, features = ["clock"] }
clap = { version = "*", features = ["derive"] }
fern = "*"
log = "*"
snafu = "*"
tokio = { version = "*", default-features = false, features = ["rt-multi-thread"] }
tsk = "*"
