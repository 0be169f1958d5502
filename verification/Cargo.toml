[package]
name = "punch_card_core"
version = "0.1.0"
edition = "2021"
publish = false

[dependencies]
clap = { version = "4", features = ["derive"] }
serde = { version = "1", features = ["derive"] }
yew = { version = "0.21", features = ["csr"] }
wasm-bindgen = "0.2"
wasm-bindgen-futures = "0.4"
js-sys = "0.3"
web-sys = { version = "0.3", features = ["Blob", "Document", "Element", "Event", "File", "FileList", "HtmlAnchorElement", "HtmlInputElement", "InputEvent", "Url", "Window"] }
