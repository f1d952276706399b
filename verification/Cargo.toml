[package]
name = "howl"
version = "0.1.0"
edition = "2021"
publish = false

[dependencies]
alto = "=3.0.4"
cgmath = "=0.18.0"
lewton = "=0.10.2"
notify = "=8.2.0"
ogg = "=0.8.0"
time = "=0.1.45"
