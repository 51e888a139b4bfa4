//! Game data (`.dat`) files.
pub mod ids;
pub mod unit_type;
pub mod tech_tree;
pub mod tech_tree_nodes;
pub mod terrain;
pub mod unit_fields;
pub mod sprite;
pub mod tech;
pub mod fields;
pub mod task;
pub mod unit_attrs;
pub mod combat;
pub mod unit_static;
pub mod terrain_tables;
pub mod tech_effect;
pub mod sprite_record;
pub mod terrain_record;
pub mod version;
pub mod sound;
pub mod color_table;

pub use color_table::ColorTable;
pub use ids::{CivilizationID, GraphicID, SoundID, SpriteID, TechID, TerrainID, UnitTypeID};
pub use sound::{Sound, SoundItem};
pub use sprite::{SoundProp, SpriteAttackSound, SpriteDelta};
pub use tech::{Tech, TechEffectRef};
pub use tech_tree::{
    ParseTechTreeDependencyTypeError, ParseTechTreeStatusError, ParseTechTreeTypeError,
    TechTreeDependencies, TechTreeDependency, TechTreeStatus, TechTreeType,
};
pub use tech_tree_nodes::{TechTree, TechTreeAge, TechTreeBuilding, TechTreeTech, TechTreeUnit};
pub use terrain::{TerrainObject, TerrainSpriteFrame, TileSize};
pub use unit_fields::{AttributeCost, DamageSprite, WeaponInfo};
pub use unit_type::{ParseUnitBaseClassError, UnitBaseClass};
pub use version::{FileVersion, GameVersion};

use arrayvec::ArrayVec;
use vstd::prelude::*;

verus! {

/// `arrayvec`'s fixed-capacity vector.
#[verifier::external_type_specification]
#[verifier::external_body]
#[verifier::reject_recursive_types(T)]
pub struct ExArrayVec<T, const CAP: usize>(ArrayVec<T, CAP>);

/// `Clone` of `ArrayVec`, which the derived `Clone` of the records that hold one calls;
/// nothing is claimed of the copy.
pub assume_specification<T, const CAP: usize>[<ArrayVec<T, CAP> as Clone>::clone](
    v: &ArrayVec<T, CAP>,
) -> ArrayVec<T, CAP>
    where
        T: Clone,
;

} // verus!
