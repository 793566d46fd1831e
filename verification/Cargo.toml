[package]
name = "emoji_to_do"
version = "0.1.0"
edition = "2021"
publish = false

[dependencies]
actix-cors = "=0.6.5"
actix-session = { version = "=0.7.2", features = ["cookie-session"] }
actix-web = "=4.18.1"
dotenv = "=0.15.0"
env_logger = "=0.9.3"
futures = "=0.3.34"
handlebars = { version = "=4.5.0", features = ["dir_source"] }
hmac = "=0.12.1"
jwt = "=0.16.0"
listenfd = "=1.0.2"
log = "=0.4.34"
oauth2 = "=4.4.2"
reqwest = { version = "=0.11.27", features = ["json"] }
sea-orm = { version = "=0.9.3", features = ["sqlx-sqlite", "runtime-actix-native-tls", "macros"] }
serde = { version = "=1.0.229", features = ["derive"] }
serde_json = "=1.0.154"
sha2 = "=0.10.9"
sqlx = { version = "=0.6.3", default-features = false, features = ["sqlite", "runtime-actix-native-tls"] }

[dev-dependencies]
regex = "=1.13.1"
