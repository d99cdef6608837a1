[package]
name = "vcf_id_adder"
version = "0.1.0"
edition = "2021"
publish = false

[dependencies]
clap = { version = "*", features = ["derive"] }
flate2 = "*"
sha1 = "*"
vcf = "*"
