[package]
name = "protos"
version = "0.1.0"
edition = "2021"
publish = false

[dependencies]
pathfinding = "4"
bevy = { version = "0.11", default-features = false }
bevy_rapier3d = { version = "0.22", default-features = false, features = ["dim3"] }
big-brain = "0.18"
futures-lite = "1"
kiddo = "0.2"
parry3d = "0.13"
rand = "0.8"
rand_distr = "0.4"
