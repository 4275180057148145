[package]
name = "plantuml_state_diagram_parser"
version = "0.1.0"
edition = "2021"
publish = false
