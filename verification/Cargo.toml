[package]
name = "hinata"
version = "0.1.0"
edition = "2021"
publish = false

[dependencies]
async-trait = "=0.1.92"
byteorder = "=1.5.0"
hidapi = { version = "=2.6.7", default-features = false, features = ["linux-native-basic-udev"] }
num-derive = "=0.4.2"
num-traits = "=0.2.19"
regex = "=1.13.1"
serde = { version = "=1.0.229", features = ["derive"] }
thiserror = "=1.0.69"
tokio = { version = "=1.54.1", features = ["macros", "rt", "sync", "time"] }
windows = { version = "=0.62.2", features = ["Win32_Devices_DeviceAndDriverInstallation", "Win32_Devices_Properties", "Win32_Foundation"] }
winreg = "=0.56.0"
wmi = "=0.18.4"
