[package]
name = "parallel_reduce"
version = "0.1.0"
edition = "2021"
publish = false

[dependencies]
axum = "0.8"
futures = "0.3"
linfa = "0.7"
linfa-clustering = "0.7"
linfa-linear = "0.7"
ndarray = "0.15"
plotters = "0.3"
polars = { version = "*", default-features = false }
rand = "0.9"
rand_distr = "0.5"
rayon = "=1.12.0"
reqwest = "0.12"
serde = { version = "1", features = ["derive"] }
tokio = { version = "1", features = ["macros", "net", "rt-multi-thread"] }
tower-http = { version = "0.6", features = ["fs"] }
