use genie::dat::ids::{
    CivilizationID, GraphicID, SoundID, SpriteID, TechID, TerrainID, UnitTypeID,
};
use genie::dat::unit_type::UnitBaseClass;

#[test]
fn cmp_unit_base_class() {
    assert_eq!(UnitBaseClass::Static, UnitBaseClass::Static);
    assert!(UnitBaseClass::Static < UnitBaseClass::Animated);
    assert!(UnitBaseClass::Static < UnitBaseClass::Doppelganger);
    assert!(UnitBaseClass::Animated < UnitBaseClass::Doppelganger);
    assert!(!(UnitBaseClass::Moving < UnitBaseClass::Doppelganger));
    assert!(!(UnitBaseClass::Moving > UnitBaseClass::Doppelganger));
    // No class inherits from a leaf, so the two leaves are unordered both ways.
    assert_eq!(UnitBaseClass::Missile.partial_cmp(&UnitBaseClass::Doppelganger), None);
    assert_eq!(UnitBaseClass::Doppelganger.partial_cmp(&UnitBaseClass::Missile), None);
    assert!(UnitBaseClass::Missile > UnitBaseClass::BaseCombat);
}

#[test]
fn unit_base_class_codes() {
    assert_eq!(UnitBaseClass::Doppelganger.code(), 25);
    assert_eq!(UnitBaseClass::Tree.code(), 90);
    assert_eq!(UnitBaseClass::try_from(60).ok(), Some(UnitBaseClass::Missile));
    assert_eq!(UnitBaseClass::try_from(15).err().map(|e| e.0), Some(15));
    for code in [10u8, 20, 25, 30, 40, 50, 60, 70, 80, 90] {
        assert_eq!(UnitBaseClass::try_from(code).unwrap().code(), code);
    }
}

#[test]
fn id_conversions() {
    assert_eq!(u16::from(SoundID::from(12u16)), 12);
    assert_eq!(u16::from(TerrainID::from(3u16)), 3);
    assert_eq!(u16::from(CivilizationID::from(18u16)), 18);
    assert_eq!(u32::from(GraphicID::from(70000u32)), 70000);
    assert_eq!(u16::from(SpriteID::from(5u16)), 5);
    assert_eq!(u16::from(UnitTypeID::from(83u16)), 83);
    assert_eq!(u16::from(TechID::from(101u16)), 101);
}

