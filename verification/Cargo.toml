[package]
name = "gent_kern"
version = "0.1.0"
edition = "2021"
publish = false

[dependencies]
vmem = { version = "=1.0.0", default-features = false, features = ["std", "spin"] }
crossbeam-queue = "=0.3.14"
spin = "=0.9.9"
sbi = "=0.2.0"
log = "=0.4.34"
limine = "=0.6.5"
elf = "=0.7.4"
