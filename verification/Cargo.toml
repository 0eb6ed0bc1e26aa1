[package]
name = "plate_pipeline"
version = "0.1.0"
edition = "2021"
publish = false

[dependencies]
exitcode = "*"
glob = "*"
num_cpus = "*"
stl-thumb = "*"
subprocess = "*"
