[package]
name = "elevated_command"
version = "0.1.0"
edition = "2021"
publish = false

[dependencies]
anyhow = "1"
winapi = { version = "0.3", features = ["handleapi", "minwindef", "processthreadsapi", "securitybaseapi", "shellapi", "synchapi", "winbase", "winnt", "winuser"] }
