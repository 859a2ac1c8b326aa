[package]
name = "sampling_profiler"
version = "0.1.0"
edition = "2021"
publish = false

[dependencies]
backtrace = "=0.3.76"
lazy_static = "=1.5.1"
libc = "=0.2.191"
log = "=0.4.34"
parking_lot = "=0.12.5"
winapi = { version = "=0.3.9", features = ["handleapi", "minwindef", "ntdef", "processthreadsapi", "winnt"] }
