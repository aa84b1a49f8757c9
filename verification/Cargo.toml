[package]
name = "drive_serial"
version = "0.1.0"
edition = "2021"
publish = false

[dependencies]
byteorder = "1"
winapi = { version = "0.3", features = ["errhandlingapi", "fileapi", "handleapi", "ioapiset", "minwinbase", "minwindef", "ntdef", "synchapi", "winbase", "winerror", "winioctl", "winnt"] }
