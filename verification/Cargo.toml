[package]
name = "ping_capstone"
version = "0.1.0"
edition = "2021"
publish = false

[dependencies]
critical-section = "=1.2.0"
embassy-executor = "=0.10.0"
embassy-time = "=0.5.1"
embedded-hal-async = "=1.0.0"
embedded-io-async = "=0.7.0"
esp-alloc = "=0.10.0"
esp-bootloader-esp-idf = { version = "=0.5.0", features = ["esp32s3"] }
esp-hal = { version = "=1.1.2", features = ["esp32s3", "unstable"] }
esp-radio = { version = "=0.18.0", features = ["esp32s3", "wifi"] }
esp-rtos = { version = "=0.3.0", features = ["esp32s3", "embassy", "esp-radio"] }
libm = "=0.2.16"
rtt-target = "=0.6.2"
ublox = { version = "=0.10.0", default-features = false, features = ["ubx_proto31"] }
