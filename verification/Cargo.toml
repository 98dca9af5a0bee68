[package]
name = "feed_relay"
version = "0.1.0"
edition = "2021"
publish = false

[dependencies]
regex = "=1.13.1"
itertools = "=0.10.5"
serde = { version = "=1.0.229", features = ["derive"] }
serde_json = "=1.0.154"
reqwest = { version = "=0.11.27", default-features = false, features = ["rustls-tls"] }
sea-orm = { version = "=0.10.7", default-features = false, features = ["macros"] }
teloxide = { version = "=0.11.3", default-features = false, features = ["rustls", "macros", "ctrlc_handler"] }
# Not used directly: teloxide's core asks for takecell 0.1, and 0.1.2 needs a
# newer compiler than the rest of the tree. Held at the release before it.
takecell = "=0.1.1"
dptree = "=0.3.0"
url = "=2.5.8"
tokio = { version = "=1.54.1", features = ["time", "macros", "rt-multi-thread"] }
clap = { version = "=4.6.7", features = ["derive"] }
