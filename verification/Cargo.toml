[package]
name = "statusbar"
version = "0.1.0"
edition = "2021"
publish = false

[dependencies]
json = "0.12"
chrono = "0.4"
systemstat = "*"
alsa = "*"
curl = "0.4"
maildir = "*"
network-manager = "*"
battery = "0.7"
