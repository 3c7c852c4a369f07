pub mod assembly;
pub mod metadata;
pub mod sifting;
