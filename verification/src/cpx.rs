//! Campaign files store multiple scenario files in one easily distributable chunk.
//!
//! Campaigns are read with `Campaign` and written with `CampaignWriter`.
//!
//! A campaign file starts with a 4-byte version. In the classic format (`"1.00"`) the
//! campaign's name follows as 256 NUL-padded bytes, then the number of scenarios; each
//! scenario then has an entry with its size, its offset, and its name and file name as 255
//! NUL-padded bytes each. In the Age of Empires: Definitive Edition format (`"1.10"`) the
//! number of scenarios comes first, names are length-prefixed strings, and sizes and offsets
//! take 8 bytes. The Age of Empires 2: Definitive Edition format (`"2.00"`) lists the
//! packages that the campaign depends on before its name.
pub mod read;
pub mod write;

pub use read::{read_fixed_str, Campaign, ReadCampaignError};
pub use write::{CampaignWriter, WriteCampaignError};


use vstd::prelude::*;

verus! {

/// Version identifier for AoE1, AoE2, and AoE2: HD campaign files (`"1.00"`).
pub const AOE_AOK: [u8; 4] = [0x31, 0x2e, 0x30, 0x30];

/// Version identifier for AoE1: Definitive Edition campaign files (`"1.10"`).
pub const AOE1_DE: [u8; 4] = [0x31, 0x2e, 0x31, 0x30];

/// Version identifier for AoE2: Definitive Edition campaign files (`"2.00"`).
pub const AOE2_DE: [u8; 4] = [0x32, 0x2e, 0x30, 0x30];

/// Data about a scenario in the campaign file.
#[derive(Debug, Clone)]
pub struct ScenarioMeta {
    /// Size in bytes of the scenario file.
    pub size: usize,
    /// Offset in bytes of the scenario file within the campaign file.
    pub(crate) offset: usize,
    /// Name of the scenario.
    pub name: String,
    /// File name of the scenario.
    pub filename: String,
}

/// The fields of a scenario's entry: size, offset, name and file name.
pub type MetaView = (usize, usize, Seq<char>, Seq<char>);

impl View for ScenarioMeta {
    type V = MetaView;

    closed spec fn view(&self) -> MetaView {
        (self.size, self.offset, self.name@, self.filename@)
    }
}

} // verus!
