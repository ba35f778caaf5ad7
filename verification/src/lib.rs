pub mod text;
pub mod casing;
pub mod naming;
pub mod ts_types;
pub mod wit_parse;
pub mod ts_emit;
pub mod caller_utils;
pub mod rust_model;
pub mod rust_source;
pub mod wit_types;
pub mod wit_gen;
pub mod sorting;
pub mod wit_world;
pub mod llm_state;
pub mod llm_http;
pub mod templates;
pub mod todo;
pub mod llm_test;
pub mod logging;
pub mod setup;
pub mod build_rules;
pub mod chain;
