[package]
name = "buffer_panel"
version = "0.1.0"
edition = "2021"
publish = false

[dependencies]
glib = "=0.5.0"
gtk = "=0.4.1"
neovim-lib = "=0.5.4"
# Not used directly. neovim-lib brings in rmpv 0.4, which imports
# `rmp::decode::read_data_*`; rmp no longer exports these from 0.8.15 on.
# The line holds rmp to a release against which rmpv compiles.
rmp = "=0.8.8"
