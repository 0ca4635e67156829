//! Edge-based screen measurement: the analysis and interaction logic behind a
//! screen ruler, kept free of windowing so every rule can be proved.

pub mod capture;
pub mod clipboard;
pub mod desktop;
pub mod edges;
pub mod export;
pub mod help;
pub mod image;
pub mod measure;
pub mod png;
pub mod session;
pub mod shm;
pub mod state;
pub mod surface;
pub mod text;
