[package]
name = "statement_parser"
version = "0.1.0"
edition = "2021"
publish = false

[dependencies]
anyhow = "1"
chrono = "0.4"
clap = "4"
csv = "1"
euclid = "*"
log = "0.4"
pdf = "*"
pdf_encoding = "*"
regex = "1"
serde_json = "1"
