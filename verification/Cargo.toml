[package]
name = "ai_dsl2_compiler"
version = "0.1.0"
edition = "2021"

[dependencies]
llvm-sys = "*"
pest = "*"
pest_derive = "*"
