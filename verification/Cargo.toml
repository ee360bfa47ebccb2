[package]
name = "tone_player"
version = "0.1.0"
edition = "2021"
publish = false

[dependencies]
cast = "=0.3.0"
cortex-m = "=0.7.10"
cortex-m-rt = "=0.7.7"
nb = "=1.1.0"
panic-halt = "=1.0.0"
ssd1306 = "=0.8.4"
stm32f1xx-hal = { version = "=0.10.0", features = ["stm32f103", "rt"] }
