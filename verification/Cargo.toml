[package]
name = "mach_object"
version = "0.1.0"
edition = "2021"
publish = false

[dependencies]
goblin = "*"
scroll = "*"
indexmap = "*"
string-interner = "0.7"
target-lexicon = "*"
