[package]
name = "xbnet"
version = "0.1.0"
edition = "2021"
publish = false

[dependencies]
bytes = "0.5"
crossbeam-channel = "0.5"
etherparse = "0.9"
hex = "0.4"
ifstructs = "0.1"
libc = "0.2"
log = "0.4"
serialport = { version = "3.3", default-features = false }
simplelog = "0.7"
structopt = "0.3"
tun-tap = { version = "0.1", default-features = false }
