[package]
name = "lazyjj"
version = "0.1.0"
edition = "2021"
publish = false

[dependencies]
ratatui = "=0.29.0"
tui-textarea = "=0.7.0"
tui_confirm_dialog = "=0.3.1"
ansi-to-tui = "=7.0.0"
anyhow = "=1.0.104"
tracing = "=0.1.44"
regex = "=1.13.1"
