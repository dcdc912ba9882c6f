[package]
name = "nix_bindings"
version = "0.1.0"
edition = "2021"
publish = false

[dependencies]
anyhow = "1"
nix-bindings-expr-sys = "*"
nix-bindings-store-sys = "*"
nix-bindings-util = "*"
nix-bindings-util-sys = "*"
