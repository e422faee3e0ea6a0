[package]
name = "payload_dumper"
version = "0.1.0"
edition = "2021"
publish = false

[dependencies]
sha2 = "*"
bzip2 = "*"
xz4rust = "*"
zstd = "*"
bsdiff = "*"
memmap2 = "*"
anyhow = "*"
argh = "*"
num_cpus = "*"
rayon = "*"
prost = "*"
