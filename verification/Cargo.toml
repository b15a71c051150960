[package]
name = "libthread_db"
version = "0.1.0"
edition = "2021"
publish = false

[dependencies]
goblin = "*"
proc-maps = "*"
nix = { version = "*", features = ["ptrace", "process", "signal"] }
libc = "*"
errno = "*"
dlopen = "*"
dlopen_derive = "*"
