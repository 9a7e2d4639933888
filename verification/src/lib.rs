pub mod laws;
pub mod load;
pub mod prospect;
pub mod table;
pub mod text;
