[package]
name = "forum_search"
version = "0.1.0"
edition = "2021"
publish = false

[dependencies]
tantivy = "*"
cang-jie = "*"
jieba-rs = "*"
crossbeam = "*"
chrono = "*"
uuid = "*"
