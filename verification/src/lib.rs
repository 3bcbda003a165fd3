//! A virtual ESC/POS thermal receipt printer.

pub mod app_state;
pub mod bitmap;
pub mod chunking;
pub mod codepage;
pub mod codes;
pub mod element;
pub mod framing;
pub mod image_laws;
pub mod invariants;
pub mod laws;
pub mod layout;
pub mod line_laws;
pub mod model;
pub mod output;
pub mod paper;
pub mod pbm;
pub mod print_laws;
pub mod raster;
pub mod renderer;
pub mod setting_laws;
pub mod skip_laws;
pub mod state;
pub mod stream;
pub mod symbol;
pub mod symbol_laws;
pub mod value_laws;
