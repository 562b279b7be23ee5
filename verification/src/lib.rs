//! Reading and checking the DBI stream and the Public Symbol Index of a Program Database (PDB),
//! together with the state of the interactive PDB browser and the text it shows.

pub mod bytes;
pub mod dbi;
pub mod dump;
pub mod globals;
pub mod pdb;
pub mod stream_index;
pub mod text;
pub mod tui;
