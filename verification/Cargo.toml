[package]
name = "gix_kit"
version = "0.1.0"
edition = "2021"
publish = false

[dependencies]
bstr = "=1.13.1"
gix-glob = "=0.29.1"
gix-path = "=0.14.1"
gix-hash = { version = "=0.28.1", features = ["sha1"] }
gix-object = "=0.66.1"
gix-refspec = "=0.47.1"
gix-config-value = "=0.21.1"
gix-error = "=0.5.2"
thiserror = "=2.0.21"
anyhow = "=1.0.104"
