[package]
name = "periph_core"
version = "0.1.0"
edition = "2021"
publish = false

[dependencies]
cortex-m = "=0.7.9"
cortex-m-semihosting = "=0.3.7"
stm32f0 = { version = "=0.16.0", features = ["stm32f0x0", "critical-section"] }
