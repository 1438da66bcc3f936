[package]
name = "cast_slotmap"
version = "0.1.0"
edition = "2021"
publish = false

[dependencies]
slotmap = "1"
stable_deref_trait = "1"
