[package]
name = "goose_input"
version = "0.1.0"
edition = "2021"
publish = false

[dependencies]
anyhow = "=1.0.104"
console = "0.16"
rustyline = "18"
shlex = "=1.3.0"
winapi = { version = "=0.3.9", features = ["consoleapi", "processenv", "winbase", "wincon"] }
