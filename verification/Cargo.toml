[package]
name = "sekiei"
version = "0.1.0"
edition = "2021"
publish = false

[dependencies]
pulldown-cmark = "=0.13.4"
inkjet = { version = "=0.11.1", default-features = false, features = ["html", "language-rust", "language-javascript", "language-typescript", "language-python", "language-css", "language-scss", "language-html", "language-lua", "language-jsx", "language-tsx", "language-zig", "language-ocaml", "language-java", "language-c", "language-cpp", "language-c-sharp", "language-nix", "language-go"] }
serde_yaml = "=0.9.34"
wildmatch = "=2.6.1"
clap = { version = "*", features = ["derive"] }
colored = "*"
css-minify = "*"
minify-js = "*"
image = { version = "*", default-features = false, features = ["jpeg", "png", "webp"] }
walkdir = "*"
chrono = "*"
warp = { version = "=0.4.3", features = ["server"] }
tokio = { version = "*", features = ["macros", "rt-multi-thread"] }
serde = { version = "*", features = ["derive"] }
htmlescape = "*"
