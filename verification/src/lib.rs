pub mod replicate;
pub mod proto;
pub mod text;
pub mod scheme;
pub mod errors;
pub mod marks;
pub mod comp_model;
pub mod comp_state;
pub mod comp_laws;
pub mod message_pool;
pub mod pool_laws;
pub mod delivery;
pub mod tokens;
pub mod external;
pub mod claims;
pub mod event_context;
pub mod user_context;
pub mod table;
pub mod csv_table;
pub mod file_reader;
pub mod access;
pub mod runtime;
pub mod runtime_laws;
pub mod staff;
pub mod nominations;
pub mod sheet;
pub mod parse;
pub mod participants;
pub mod auth;
pub mod views;
pub mod requests;
pub mod screens;
pub mod message_text;
pub mod forms;
pub mod records;
