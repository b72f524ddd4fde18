[package]
name = "sway_alttab"
version = "0.1.0"
edition = "2021"
publish = false

[dependencies]
clap = "*"
daemonize = "*"
signal-hook = "*"
swayipc = "*"
