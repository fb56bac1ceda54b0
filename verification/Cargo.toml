[package]
name = "beaglewing"
version = "0.1.0"
edition = "2021"
publish = false

[dependencies]
clipboard-win = "5"
evdev = "0.12"
hidapi = { version = "2", default-features = false, features = ["linux-native-basic-udev"] }
image = { version = "0.25", default-features = false, features = ["bmp", "png"] }
ksni = { version = "0.3", features = ["blocking"] }
libc = "0.2"
reis = "*"
tar = "0.4"
zbus = "5"
