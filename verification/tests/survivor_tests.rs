use rust_tracker_bot::survivor::{Survivors, NUM_SURVIVORS};

const NAMES: [&str; NUM_SURVIVORS] = [
    "Acrid",
    "Artificer",
    "Bandit",
    "Captain",
    "Commando",
    "Engineer",
    "Huntress",
    "Loader",
    "MulT",
    "Mercenary",
    "Rex",
    "Railgunner",
    "VoidFiend",
];

#[test]
fn index_to_survivor_follows_roster_order() {
    assert_eq!(Survivors::index_to_survivor(0), Survivors::Acrid);
    assert_eq!(Survivors::index_to_survivor(8), Survivors::MulT);
    assert_eq!(Survivors::index_to_survivor(12), Survivors::VoidFiend);
}

#[test]
fn index_roundtrip_for_every_position() {
    for i in 0..NUM_SURVIVORS {
        assert_eq!(Survivors::index_to_survivor(i).survivor_to_index(), i);
    }
}

#[test]
fn names_follow_roster_order() {
    for i in 0..NUM_SURVIVORS {
        assert_eq!(Survivors::index_to_survivor(i).survivor_to_name(), NAMES[i]);
        assert_eq!(Survivors::index_to_survivor(i).to_string(), NAMES[i].to_string());
    }
}

#[test]
fn name_roundtrip_for_every_survivor() {
    for i in 0..NUM_SURVIVORS {
        let s = Survivors::index_to_survivor(i);
        assert_eq!(Survivors::name_to_survivor(s.survivor_to_name()), Some(s));
    }
}

#[test]
fn names_are_distinct() {
    for i in 0..NUM_SURVIVORS {
        for j in 0..NUM_SURVIVORS {
            if i != j {
                assert_ne!(NAMES[i], Survivors::index_to_survivor(j).survivor_to_name());
            }
        }
    }
}

#[test]
fn name_lookup_is_exact() {
    assert_eq!(Survivors::name_to_survivor("Rex"), Some(Survivors::Rex));
    assert_eq!(Survivors::name_to_survivor("rex"), None);
    assert_eq!(Survivors::name_to_survivor("Rex "), None);
    assert_eq!(Survivors::name_to_survivor(""), None);
    assert_eq!(Survivors::name_to_survivor("Seeker"), None);
    assert_eq!(Survivors::name_to_survivor("None"), None);
}
