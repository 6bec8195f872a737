[package]
name = "oprs"
version = "0.1.0"
edition = "2021"
publish = false

[dependencies]
anyhow = "=1.0.104"
argh = "=0.1.19"
ctrlc = "=3.5.2"
libc = "=0.2.191"
light-ini = "=0.4.0"
log = "=0.4.35"
memchr = "=2.8.3"
indextree = "=4.9.2"
procfs = "=0.18.0"
ratatui = { version = "*", default-features = false }
simplelog = "=0.12.2"
termion = "=4.0.6"
xdg = "=3.0.0"
