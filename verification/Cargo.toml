[package]
name = "rikos"
version = "0.1.0"
edition = "2021"
publish = false

[dependencies]
circular-buffer = "=0.1.9"
conquer-once = "=0.4.0"
crossbeam-queue = "=0.3.14"
futures-util = "=0.3.34"
lazy_static = "=1.5.1"
multiboot2 = "=0.28.0"
pc-keyboard = "=0.7.0"
pic8259 = "=0.10.4"
spin = "=0.9.9"
uart_16550 = "=0.3.2"
volatile = "=0.5.4"
x86_64 = { version = "=0.14.13", default-features = false, features = ["instructions"] }
