[package]
name = "mahjong_session"
version = "0.1.0"
edition = "2021"
publish = false
