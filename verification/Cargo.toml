[package]
name = "netscanner"
version = "0.1.0"
edition = "2021"
publish = false

[dependencies]
cidr = "0.2"
color-eyre = "0.6"
crossterm = "0.28"
log = "0.4"
mac_oui = { version = "0.4", features = ["with-db"] }
pnet = "0.35"
ratatui = "0.28"
tokio = { version = "1", features = ["sync"] }
tui-input = "0.10"
