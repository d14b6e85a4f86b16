[package]
name = "stage_times"
version = "0.1.0"
edition = "2021"
publish = false

[dependencies]
chrono = "*"
geoutils = "*"
gpx = "*"
cli-table = "*"
