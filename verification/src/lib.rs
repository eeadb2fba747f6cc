//! Crawler configuration and text-processing core.
pub mod ai_extractor;
pub mod api_key;
pub mod block_detector;
pub mod bot_api;
pub mod bot_command;
pub mod collector;
pub mod crypto;
pub mod engine;
pub mod extractor;
pub mod field_schema;
pub mod follow_url;
pub mod html_support;
pub mod image_uploader;
pub mod json_support;
pub mod pan_detector;
pub mod preset_library;
pub mod probe;
pub mod source_layer;
pub mod refresh;
pub mod regex_support;
pub mod script_engine;
pub mod script_fetch;
pub mod script_runner;
pub mod templates;
pub mod text;
pub mod url_normalize;
