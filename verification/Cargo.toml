[package]
name = "sequential_matrix"
version = "0.1.0"
edition = "2021"
publish = false

[dependencies]
# `std` selects a clock driver that runs on the build machine.
embassy-time = { version = "=0.4.0", features = ["std"] }

# What follows is used by the firmware glue only.
embassy-executor = { version = "=0.7.0", features = ["arch-std", "executor-thread"] }
# rmk 0.5.2 calls `select_slice` as embassy-futures 0.1.1 declares it; with
# 0.1.2, which cargo would pick, rmk's `async_matrix` feature does not compile.
embassy-futures = "=0.1.1"
embassy-usb = "=0.4.0"
embedded-hal = "=1.0.0"
embedded-hal-async = "=1.0.0"
embedded-io-async = "=0.6.1"
embedded-storage-async = "=0.4.2"
rmk = { version = "=0.5.2", features = ["async_matrix", "split"] }
