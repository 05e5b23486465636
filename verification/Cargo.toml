[package]
name = "school_timetable"
version = "0.1.0"
edition = "2021"
publish = false

[dependencies]
anyhow = "=1.0.104"
chrono = "=0.4.45"
dotenv = "=0.15.0"
indicatif = "=0.17.11"
itertools = "=0.15.0"
reqwest = { version = "=0.11.27", features = ["blocking", "cookies"] }
select = "=0.6.1"
tincture = "=0.5.0"
