//! The swap router program: its instruction and the checks it makes on the
//! accounts of every leg before it hands the leg to a venue.

pub mod instruction;
pub mod processor;
