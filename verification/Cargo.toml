[package]
name = "modbus_symbol_map"
version = "0.1.0"
edition = "2021"
publish = false

[dependencies]
regex = "*"
clap = "2"
colored = "*"
csv = "*"
serde = "*"
serde_derive = "*"
xmltree = "*"
