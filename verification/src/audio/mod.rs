pub mod text;
pub mod sorting;
pub mod devices;
pub mod voice;
pub mod layout;
pub mod capture;
pub mod mic;
pub mod types;
pub mod engine;
pub mod ring;
pub mod mixer;
