[package]
name = "ethtool"
version = "0.1.0"
edition = "2021"
publish = false

[dependencies]
byteorder = "=1.5.0"
futures = "=0.3.34"
genetlink = "=0.2.5"
netlink-packet-core = "=0.7.0"
netlink-packet-generic = "=0.3.3"
netlink-packet-utils = "=0.5.2"
