[package]
name = "rstat"
version = "0.1.0"
edition = "2021"
publish = false

[dependencies]
ndarray = "=0.13.1"
rand = "=0.7.3"
rand_distr = "=0.2.2"
spaces = "=5.0.0"
special-fun = "=0.2.0"
