[package]
name = "sdmmc_spi"
version = "0.1.0"
edition = "2021"
publish = false

[dependencies]
defmt = "*"
diskio = "*"
embedded-hal = "0.2"
size = "*"
switch-hal = "*"

[dev-dependencies]
bitfield = "*"
