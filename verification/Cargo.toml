[package]
name = "hostfacts"
version = "0.1.0"
edition = "2021"
publish = false

[dependencies]
arcstr = "1"
battery = "0.7"
glob = "0.3"
itertools = "0.13"
libc = "0.2"
pci-ids = "0.2"
platform-info = "2"
plist = "1"
rustc-hash = "2"
sysctl = "0.5"
time = "0.3"
whoami = "1"
