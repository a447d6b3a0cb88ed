use larps::definitions::{Boss, Class, HitFlag, HitOption, Trigger};

#[test]
fn class_from_id_maps_known_ids() {
    assert_eq!(Class::from_id(102), Class::Berserker);
    assert_eq!(Class::from_id(204), Class::Bard);
    assert_eq!(Class::from_id(603), Class::Aeromancer);
    assert_eq!(Class::from_id(0), Class::Unknown);
    assert_eq!(Class::from_id(999), Class::Unknown);
}

#[test]
fn class_names_colors_and_icons() {
    assert_eq!(Class::Berserker.name(), "Berserker");
    assert_eq!(Class::MaleMartialArtist.name(), "Male Martial Artist");
    assert_eq!(Class::Unknown.name(), "UNKNOWN");
    assert_eq!(Class::Gunlancer.color(), (0xc9, 0x22, 0x57));
    assert_eq!(Class::Unknown.color(), (0xff, 0xff, 0xff));
    assert_eq!(Class::Warrior.icon_index(), Some(0));
    assert_eq!(Class::Aeromancer.icon_index(), Some(33));
    assert_eq!(Class::Unknown.icon_index(), None);
}

#[test]
fn hit_flag_from_raw_covers_thirteen_values() {
    assert_eq!(HitFlag::from_raw(0), Some(HitFlag::Normal));
    assert_eq!(HitFlag::from_raw(1), Some(HitFlag::Critical));
    assert_eq!(HitFlag::from_raw(8), Some(HitFlag::DotCritical));
    assert_eq!(HitFlag::from_raw(11), Some(HitFlag::DamageShare));
    assert_eq!(HitFlag::from_raw(12), Some(HitFlag::DodgeHit));
    assert_eq!(HitFlag::from_raw(13), None);
    assert_eq!(HitFlag::from_raw(255), None);
    assert!(HitFlag::Dot.is_dot());
    assert!(HitFlag::DotCritical.is_dot());
    assert!(!HitFlag::Critical.is_dot());
    assert!(HitFlag::Critical.is_crit());
    assert!(HitFlag::DotCritical.is_crit());
    assert!(!HitFlag::Normal.is_crit());
}

#[test]
fn hit_option_from_raw_covers_four_values() {
    assert_eq!(HitOption::from_raw(0), Some(HitOption::NoPosition));
    assert_eq!(HitOption::from_raw(1), Some(HitOption::BackAttack));
    assert_eq!(HitOption::from_raw(2), Some(HitOption::FrontalAttack));
    assert_eq!(HitOption::from_raw(3), Some(HitOption::FlankAttack));
    assert_eq!(HitOption::from_raw(4), None);
}

#[test]
fn trigger_from_raw_matches_signal_values() {
    assert_eq!(Trigger::from_raw(0), None);
    assert_eq!(Trigger::from_raw(1), Some(Trigger::Nothing));
    assert_eq!(Trigger::from_raw(58), Some(Trigger::DungeonPhase1Clear));
    assert_eq!(Trigger::from_raw(65), Some(Trigger::DungeonPhase4Fail));
    assert_eq!(Trigger::from_raw(105), Some(Trigger::UserStatusEffectRemoved));
    assert_eq!(Trigger::from_raw(106), None);
    assert_eq!(larps::definitions::trigger_signal::DUNGEON_PHASE1_CLEAR, 58);
    assert_eq!(larps::definitions::stat_type::MAX, 152);
}

#[test]
fn boss_tables() {
    assert_eq!(Boss::from_id(720011), Some(Boss::Golem));
    assert_eq!(Boss::from_id(480005), Some(Boss::ValtanG1));
    assert_eq!(Boss::from_id(42063044), Some(Boss::ValtanG2));
    assert_eq!(Boss::from_id(480969), Some(Boss::AkkanG3Bonus));
    assert_eq!(Boss::from_id(1), None);
    assert_eq!(Boss::ValtanG2.max_bars(), Some(160));
    assert_eq!(Boss::BrelshazaG6.max_bars(), Some(250));
    assert_eq!(Boss::Golem.max_bars(), None);
    assert_eq!(Boss::Golem.id(), 720011);
    assert_eq!(Boss::ValtanG1.id(), 0);
    assert_eq!(Boss::KakulSaydonG3Bingo.name(), "clown-g3-bingo");
    assert_eq!(Boss::Bird.name(), "kayangel-bird");
}
