[package]
name = "netsblox_vm_esp32"
version = "0.1.0"
edition = "2021"
publish = false

[dependencies]
string-ring = "=0.1.1"
uuid = { version = "=1.29.0", features = ["v4"] }
netsblox-vm = { version = "=0.4.6", default-features = false, features = ["std", "serde"] }
serde = { version = "1", features = ["derive"] }
rand = "0.9"
rand_chacha = "0.9"
getrandom = "0.3"
embedded-hal = "1"
embedded-svc = "*"
esp-idf-hal = "*"
esp-idf-svc = "*"
esp-idf-sys = "*"
bmp388 = "*"
is31fl3741 = "*"
lis3dh = "*"
max30205 = "*"
veml6030 = "*"
