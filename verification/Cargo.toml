[package]
name = "strife"
version = "0.1.0"
edition = "2021"
publish = false

[dependencies]
fst = { version = "=0.4.7", features = ["levenshtein"] }
twilight-model = "=0.15.4"
twilight-cache-inmemory = "=0.15.4"
twilight-gateway = "=0.15.4"
twilight-http = "=0.15.4"
tokio = { version = "1", features = ["macros", "rt-multi-thread", "fs", "io-util", "sync", "time"] }
futures-util = "0.3"
crossterm = { version = "=0.25.0", features = ["event-stream"] }
tui = "=0.19.0"
serde = { version = "1", features = ["derive"] }
serde_json = "1"
directories-next = "2"
textwrap = "0.16"
time = { version = "0.3", features = ["formatting", "macros"] }
palette = "=0.6.1"
