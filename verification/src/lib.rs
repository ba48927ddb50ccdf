//! The core of an editor for circuit schematics drawn in characters: the
//! reader of the description language, the objects of a project, the
//! library of chips, the labels of wires, the validator, the replacement of
//! chips by their pins and the voltages of the pins.

pub mod command;
pub mod cursor;
pub mod error;
pub mod flatten;
pub mod logger;
pub mod modes;
pub mod parser;
pub mod project;
pub mod search;
pub mod state;
pub mod stdlib;
pub mod table;
pub mod terminal;
pub mod text;
pub mod validate;
pub mod voltage;
pub mod wires;

pub use crate::error::CirnoError;
pub use crate::flatten::{short_chip_type, unique_label, unique_label_vec};
pub use crate::state::{check_extension, CirnoState};
pub use crate::stdlib::stdlib;
pub use crate::wires::color_to_string;
