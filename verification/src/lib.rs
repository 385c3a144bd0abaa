//! Record ingestion and field mapping for a batch uploader: datasets that hand
//! out bounded batches of decoded records, and the mapping of each record to a
//! point made of an identifier, vectors and a payload.

pub mod batch_processor;
pub mod command_line;
pub mod dataset;
pub mod decoder;
pub mod error;
pub mod field_name;
pub mod file_type;
pub mod lines;
pub mod locator;
pub mod point;
pub mod processors;
pub mod record;
pub mod text;
