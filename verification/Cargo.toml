[package]
name = "chase_seq"
version = "0.1.0"
edition = "2021"
publish = false

[dependencies]
quanta = "*"
rand_core = "*"
rand_seeder = "*"
rand_xoshiro = "*"
supershorty = "*"
