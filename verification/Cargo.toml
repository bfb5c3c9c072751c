[package]
name = "cbr_egui"
version = "0.1.0"
edition = "2021"
publish = false

[dependencies]
natord = "*"
lru = "*"
serde = { version = "*", features = ["derive"] }
serde_json = "*"
quick-xml = { version = "*", features = ["serialize"] }
rusqlite = { version = "*", features = ["bundled"] }
zip = { version = "*", default-features = false, features = ["deflate"] }
unrar = "*"
pdfium-render = "*"
djvu-rs = "*"
image = { version = "*", default-features = false, features = ["png", "jpeg", "gif", "webp", "bmp"] }
notify = "*"
crossbeam-channel = "*"
blake3 = "*"
tempfile = "*"
thiserror = "*"
rayon = "*"
