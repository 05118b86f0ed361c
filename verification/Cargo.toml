[package]
name = "lindera-sqlite"
version = "0.1.0"
edition = "2021"
publish = false

[dependencies]
libc = "=0.2.191"
lindera = "=1.5.1"
sqlite-loadable = "=0.0.5"
sqlite3ext-sys = "=0.0.1"
unicode-normalization = "=0.1.26"

[dev-dependencies]
lindera-dictionary = "=1.5.1"
