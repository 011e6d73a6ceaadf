pub mod base_table;
pub mod challenges_endpoints;
pub mod table_collection;
pub mod table_column;
