[package]
name = "lunar_calendar"
version = "0.1.0"
edition = "2021"
publish = false

[dependencies]
chinese-lunisolar-calendar = "*"
time = { version = "0.3", features = ["local-offset", "parsing", "macros"] }
time-macros = "0.2"
ratatui = "0.30"
crossterm = "0.29"
color-eyre = "0.6"
