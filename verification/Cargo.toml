[package]
name = "status_board"
version = "0.1.0"
edition = "2021"
publish = false

[dependencies]
heapless = "=0.8.0"
cyw43 = { version = "=0.7.0", features = ["defmt"] }
defmt = "=1.2.0"
defmt-rtt = "=1.3.1"
embassy-executor = { version = "=0.9.1", features = ["executor-thread", "defmt"] }
embassy-net = { version = "=0.9.1", features = ["defmt", "tcp", "udp", "dhcpv4", "medium-ethernet", "proto-ipv4"] }
embassy-net-wiznet = "=0.3.0"
embassy-sync = "=0.8.0"
embassy-time = "=0.5.1"
embedded-graphics = "=0.8.2"
embedded-hal = { version = "=0.2.7", features = ["unproven"] }
embedded-text = "=0.7.3"
panic-probe = { version = "=1.0.0", features = ["print-defmt"] }
rand = { version = "=0.8.5", default-features = false }
static_cell = "=2.1.1"
uc8151 = "=0.2.0"
