[package]
name = "kdlhtml"
version = "0.1.0"
edition = "2021"
publish = false

[dependencies]
kdl = "4"
pulldown-cmark = "*"
bpaf = { version = "*", features = ["derive"] }
