[package]
name = "stock_chart"
version = "0.1.0"
edition = "2021"
publish = false

[dependencies]
chrono = "0.4"
csv = "1"
iced = { version = "0.13", default-features = false, features = ["tiny-skia", "tokio"] }
plotters = { version = "0.3", default-features = false, features = ["candlestick"] }
plotters-iced = "0.11"
