[package]
name = "peachili"
version = "0.1.0"
edition = "2021"
publish = false

[dependencies]
id-arena = "2"
typed-arena = "2"
thiserror = "1"
colored = "2"
indicatif = "*"
llvm-scratch = "*"
