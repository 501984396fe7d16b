[package]
name = "pubnub_proto"
version = "0.1.0"
edition = "2021"
publish = false

[dependencies]
percent-encoding = "2"
json = "0.12"
