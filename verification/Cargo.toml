[package]
name = "pagegrid"
version = "0.1.0"
edition = "2021"
publish = false

[dependencies]
printpdf = "0.5"
azul-text-layout = "*"
