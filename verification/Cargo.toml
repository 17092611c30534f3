[package]
name = "line_editor"
version = "0.1.0"
edition = "2021"
publish = false

[dependencies]
unicode-segmentation = "1"
serde_json = "1"
lsp-types = "0.97"
jsonrpc = { version = "0.18", default-features = false }
smallvec = "1"
