[package]
name = "iron_kernel"
version = "0.1.0"
edition = "2021"
publish = false

[dependencies]
acpi = "=4.1.1"
bootloader_api = "=0.11.17"
conquer-once = { version = "=0.4.0", default-features = false }
linked_list_allocator = "=0.10.6"
log = "=0.4.34"
noto-sans-mono-bitmap = { version = "=0.2.0", features = ["unicode-specials"] }
ovmf-prebuilt = "=0.1.0-alpha.1"
pic8259 = "=0.10.4"
spin = "=0.9.9"
uart_16550 = "=0.2.19"
x2apic = "=0.5.1"
x86_64 = { version = "=0.14.13", default-features = false, features = ["instructions"] }
