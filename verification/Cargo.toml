[package]
name = "question_bank_creator"
version = "0.29.8"
edition = "2021"
publish = false

[dependencies]
fltk = "*"
lib_file = "*"
lib_myfltk = "*"
lib_utils = "*"
num-traits = "0.2"
rand = "0.8"
serde = { version = "1", features = ["derive"] }
serde_json = "1"
