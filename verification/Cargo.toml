[package]
name = "got_ya_id"
version = "0.1.0"
edition = "2021"
publish = false
