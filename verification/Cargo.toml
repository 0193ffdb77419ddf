[package]
name = "bare_kernel"
version = "0.1.0"
edition = "2021"
publish = false

[dependencies]
lazy_static = { version = "1.4", features = ["spin_no_std"] }
pc-keyboard = "0.5.0"
pic8259 = "0.10.1"
spin = "0.5.2"
volatile = "0.2.6"
x86_64 = { version = "0.14.2", default-features = false, features = ["instructions", "inline_asm"] }
