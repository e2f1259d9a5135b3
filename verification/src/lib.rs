//! Static analysis of Portable Executable files: string extraction, rule
//! matching, PE model and parsing, deep-scan heuristics and import graphs.
#![allow(non_camel_case_types)]
#![allow(non_snake_case)]

pub mod text;
pub mod strings;
pub mod pe_parser;
pub mod deep_scan;
pub mod graph;
pub mod report;
pub mod config;
pub mod yara;
pub mod yara_engine;
pub mod third_party;
pub mod disassemble;
