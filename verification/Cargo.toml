[package]
name = "git_project"
version = "0.1.0"
edition = "2021"
publish = false

[dependencies]
git2 = "*"
rayon = "*"
regex = "*"
url = "*"
walkdir = "*"
structopt = "*"
pathdiff = "*"
