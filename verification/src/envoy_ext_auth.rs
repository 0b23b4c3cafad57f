pub mod semantic_version;
