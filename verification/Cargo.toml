[package]
name = "random_file_server"
version = "0.1.0"
edition = "2021"
publish = false

[dependencies]
anyhow = "1"
dotenv = "0.15"
humansize = "2"
mime_guess = "2"
natord = "1"
rand = "0.9"
tiny_http = "0.12"
