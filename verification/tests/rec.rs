use genie::rec::version::GameVariant::{
    AgeOfConquerors, AgeOfKings, DefinitiveEdition, ForgottenEmpires, HighDefinition, Trial,
    UserPatch,
};
use genie::rec::version::{
    age_of_conquerors_version, age_of_kings_version, trial_version, GameVariant, GameVersion,
    DE_SAVE_VERSION, HD_SAVE_VERSION,
};

#[test]
fn read_strings() {
    assert_eq!(2 + 2, 4);
}

#[test]
pub fn test_game_variant_resolution() {
    assert_eq!(Some(Trial), GameVariant::resolve_variant(&trial_version(), 0.0f32.to_bits()));

    assert_eq!(
        Some(AgeOfKings),
        GameVariant::resolve_variant(&age_of_kings_version(), 0.0f32.to_bits())
    );

    assert_eq!(
        Some(AgeOfConquerors),
        GameVariant::resolve_variant(&age_of_conquerors_version(), 0.0f32.to_bits())
    );

    assert_eq!(
        Some(HighDefinition),
        GameVariant::resolve_variant(&age_of_conquerors_version(), HD_SAVE_VERSION)
    );

    assert_eq!(
        Some(DefinitiveEdition),
        GameVariant::resolve_variant(&age_of_conquerors_version(), DE_SAVE_VERSION)
    );

    assert_eq!(
        Some(UserPatch),
        GameVariant::resolve_variant(&GameVersion::from_short(b"VER 9.A"), 0.0f32.to_bits()),
    );

    assert_eq!(
        Some(ForgottenEmpires),
        GameVariant::resolve_variant(&GameVersion::from_short(b"VER 9.5"), 0.0f32.to_bits()),
    );
}

#[test]
pub fn test_game_variant_comparison() {
    assert!(Trial < AgeOfKings);
    assert!(AgeOfKings > Trial);
    assert!(Trial < AgeOfConquerors);
    assert!(AgeOfConquerors > Trial);
    assert!(Trial < ForgottenEmpires);
    assert!(ForgottenEmpires > Trial);
    assert!(Trial < UserPatch);
    assert!(UserPatch > Trial);
    assert!(Trial < HighDefinition);
    assert!(HighDefinition > Trial);
    assert!(Trial < DefinitiveEdition);
    assert!(DefinitiveEdition > Trial);

    assert!(AgeOfKings < AgeOfConquerors);
    assert!(AgeOfConquerors > AgeOfKings);
    assert!(AgeOfKings < ForgottenEmpires);
    assert!(ForgottenEmpires > AgeOfKings);
    assert!(AgeOfKings < UserPatch);
    assert!(UserPatch > AgeOfKings);
    assert!(AgeOfKings < HighDefinition);
    assert!(HighDefinition > AgeOfKings);
    assert!(AgeOfKings < DefinitiveEdition);
    assert!(DefinitiveEdition > AgeOfKings);

    assert!(AgeOfConquerors < ForgottenEmpires);
    assert!(ForgottenEmpires > AgeOfConquerors);
    assert!(AgeOfConquerors < UserPatch);
    assert!(UserPatch > AgeOfConquerors);
    assert!(AgeOfConquerors < HighDefinition);
    assert!(HighDefinition > AgeOfConquerors);
    assert!(AgeOfConquerors < DefinitiveEdition);
    assert!(DefinitiveEdition > AgeOfConquerors);
    assert!(DefinitiveEdition >= AgeOfConquerors);

    assert_eq!(false, ForgottenEmpires < UserPatch);
    assert_eq!(false, UserPatch > ForgottenEmpires);
    assert_eq!(false, ForgottenEmpires < HighDefinition);
    assert_eq!(false, HighDefinition > ForgottenEmpires);
    assert_eq!(false, ForgottenEmpires < DefinitiveEdition);
    assert_eq!(false, DefinitiveEdition > ForgottenEmpires);

    assert_eq!(false, UserPatch < HighDefinition);
    assert_eq!(false, HighDefinition > UserPatch);
    assert_eq!(false, UserPatch < DefinitiveEdition);
    assert_eq!(false, DefinitiveEdition > UserPatch);

    assert!(HighDefinition < DefinitiveEdition);
    assert!(DefinitiveEdition > HighDefinition);
}
