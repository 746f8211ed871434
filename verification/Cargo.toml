[package]
name = "eomi_weact"
version = "0.1.0"
edition = "2021"
publish = false

[dependencies]
heapless = "=0.8.0"
embassy-stm32 = { version = "=0.2.0", features = ["stm32h743vi", "time-driver-any", "memory-x", "exti", "defmt"] }
embassy-executor = { version = "=0.7.0", features = ["arch-std", "executor-thread", "defmt"] }
embassy-sync = "=0.6.2"
embassy-time = { version = "=0.4.0", features = ["defmt"] }
embedded-graphics = "=0.8.2"
embedded-hal = "=1.0.0"
embedded-hal-async = "=1.0.0"
embedded-hal-bus = "=0.3.0"
embedded-io-async = "=0.6.1"
embedded-nrf24l01 = "=0.2.0"
mipidsi = "=0.9.0"
profont = "=0.7.0"
static_cell = "=2.1.1"
defmt = "=0.3.101"
defmt-rtt = "=0.4.2"
panic-probe = { version = "=0.3.2", features = ["print-defmt"] }
cortex-m-rt = "=0.7.7"
