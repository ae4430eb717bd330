[package]
name = "resipee_grid"
version = "0.1.0"
edition = "2021"
publish = false

[dependencies]
regex = "1"
crossterm = "0.22"
enum-iterator = "0.7"
