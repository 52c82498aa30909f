[package]
name = "xml_doc"
version = "0.1.0"
edition = "2021"
publish = false

[dependencies]
encoding_rs = "0.8"
quick-xml = "0.22"
