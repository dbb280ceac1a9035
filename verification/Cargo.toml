[package]
name = "my_dev_tool"
version = "1.0.0"
edition = "2021"
publish = false

[dependencies]
chrono = "0.4"
clap = "4"
clap_complete = "4"
dirs = "*"
urlencoding = "2"
