[package]
name = "scroll_layout"
version = "0.1.0"
edition = "2021"
publish = false

[dependencies]
tui = { version = "=0.19.0", default-features = false }
unicode-width = "=0.1.14"
unicode-segmentation = "=1.12.0"
easy-cast = "=0.4.4"
anyhow = "=1.0.104"
async-trait = "=0.1.92"
itertools = "=0.10.5"
serde_json = "=1.0.154"
