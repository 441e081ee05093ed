[package]
name = "vesta_fixture"
version = "0.1.0"
edition = "2021"
publish = false

[dependencies]
ff = "0.13"
group = "0.13"
pasta_curves = "0.5"
