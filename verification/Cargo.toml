[package]
name = "cell_field"
version = "0.1.0"
edition = "2021"
publish = false

[dependencies]
rand_chacha = "0.3"
secret-toolkit = { version = "*", features = ["permit", "crypto", "storage"] }
secret-cosmwasm-std = "*"
serde = { version = "1", features = ["derive"] }
sha2 = "0.10"
