[package]
name = "simple_whp_demo"
version = "0.1.0"
edition = "2021"
publish = false

[dependencies]
font8x8 = "=0.3.1"
once_cell = "=1.21.4"
aligned = "=0.4.3"
sdl2 = "=0.38.0"
openal-sys = "=1.16.0"
windows = { version = "=0.61.3", features = ["Win32_Foundation", "Win32_Storage_FileSystem", "Win32_System_Hypervisor", "Win32_System_Memory"] }
