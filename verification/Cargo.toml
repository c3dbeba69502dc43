[package]
name = "rurt"
version = "0.1.0"
edition = "2021"
publish = false

[dependencies]
nucleo = "=0.5.0"
ignore = "=0.4.33"
anyhow = "=1.0.104"
content_inspector = "=0.2.4"
file_type = "=0.8.11"
hexyl = "=0.17.0"
bat = { version = "=0.26.1", default-features = false, features = ["regex-fancy"] }
ansi-to-tui = "=8.0.1"
ratatui = "=0.30.2"
crossterm = "=0.29.0"
tui-input = "=0.15.5"
lscolors = "=0.21.0"
pathdiff = "=0.2.3"
clap = { version = "=4.6.7", features = ["derive"] }
dirs = "=7.0.0"
open = "=5.4.5"
log = "=0.4.34"
convert_case = "=0.12.0"
shell-quote = "=0.8.0"
termimage = "=1.2.2"
image = { version = "=0.25.10", default-features = false, features = ["png", "jpeg", "gif", "bmp"] }
arboard = { version = "=3.7.0", default-features = false }
