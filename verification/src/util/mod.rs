pub mod text;
pub mod base64;
pub mod dfs_serializer;
pub mod sequence;
pub mod document;
pub mod json;
pub mod json_laws;
pub mod json_lines;
pub mod json_parser;
pub mod lines;
pub mod reading;
