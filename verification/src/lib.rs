//! The decision logic of the hex structure-selection menu and of unit
//! reproduction, with contracts checked by Verus.

pub mod hex_grid;
pub mod hex_menu;
pub mod selection;
pub mod reproduction;
