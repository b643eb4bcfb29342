[package]
name = "flycatcher"
version = "0.1.0"
edition = "2021"
publish = false

[dependencies]
clap = "2.33"
codespan-reporting = "0.11"
cranelift = "0.76"
cranelift-codegen = "0.76"
cranelift-module = "0.76"
cranelift-object = "0.76"
pathdiff = "0.2"
target-lexicon = "0.12"
unicode-xid = "0.2"
