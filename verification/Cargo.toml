[package]
name = "todo_board"
version = "0.1.0"
edition = "2021"
publish = false

[dependencies]
crossterm = "0.27"
ratatui = "0.26"
