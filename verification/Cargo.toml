[package]
name = "sortable_quick_unique_id"
version = "0.1.0"
edition = "2021"
publish = false

[dependencies]
machine_uuid = "*"
