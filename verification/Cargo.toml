[package]
name = "beancell_holo"
version = "0.1.0"
edition = "2021"
publish = false

[dependencies]
heapless = "*"
async-trait = "*"
defmt = "*"
embassy-executor = "*"
embassy-futures = "*"
embassy-net = "*"
embassy-sync = "*"
embassy-time = "*"
embedded-io-async = "*"
embedded-storage = "*"
embedded-storage-async = "*"
esp-alloc = "*"
esp-bootloader-esp-idf = "*"
esp-hal = "*"
esp-radio = "*"
esp-rtos = "*"
esp-storage = "*"
panic-rtt-target = "*"
portable-atomic = "*"
rtt-target = "*"
sequential-storage = "*"
static_cell = "*"
