//! A verified core for an HTTP server: request-header parsing, body content
//! detection and decoding, multipart form data, cookies and response building.

pub mod text;
pub mod cookies;
pub mod output;
pub mod result_builder;
pub mod content_encoding;
pub mod body_content_type;
pub mod cookies_reader;
pub mod path_reader;
pub mod request_ip;
pub mod headers;
pub mod convert;
pub mod form_data;
pub mod controllers;
pub mod body_pump;
pub mod request_content;
pub mod swagger;
pub mod request_parts;
pub mod server_flow;
pub mod key_values;
