[package]
name = "jeu_de_carte"
version = "0.1.0"
edition = "2021"
publish = false

[dependencies]
rand = "0.8"
uuid = { version = "1", features = ["v4", "serde"] }
serde = { version = "1", features = ["derive"] }
postgres = { version = "0.19", features = ["with-uuid-1"] }
actix-web = { version = "4", default-features = false, features = ["macros"] }
actix-cors = "0.6"
dotenv = "0.15"
