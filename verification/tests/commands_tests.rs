use rust_tracker_bot::commands::{
    apply_level, format_levels, level_up, level_update_reply, levels_reply, plan_level_update,
    unknown_user_reply,
};
use rust_tracker_bot::survivor::{Survivors, NUM_SURVIVORS};
use rust_tracker_bot::text::int_to_text;

const NOT_REGISTERED: &str =
    "You are not in the database. Run set_survivor_eclipse_lvl first and update your survivor levels";

#[test]
fn int_to_text_matches_std() {
    for n in [0, 7, 9, 10, 42, 100, -1, -42, i32::MAX, i32::MIN] {
        assert_eq!(int_to_text(n), n.to_string());
    }
}

#[test]
fn format_levels_lists_every_survivor() {
    let levels = [1, 2, 3, 4, 5, 6, 7, 8, 9, 0, -3, 10, 9];
    let expected = "Acrid: [1]\nArtificer: [2]\nBandit: [3]\nCaptain: [4]\nCommando: [5]\n\
Engineer: [6]\nHuntress: [7]\nLoader: [8]\nMulT: [Completed]\nMercenary: [0]\nRex: [-3]\n\
Railgunner: [10]\nVoidFiend: [Completed]\n";
    assert_eq!(format_levels(&levels), expected);
}

#[test]
fn levels_reply_without_stored_levels() {
    assert_eq!(levels_reply(None), NOT_REGISTERED);
}

#[test]
fn levels_reply_with_stored_levels() {
    let levels = [1; NUM_SURVIVORS];
    assert_eq!(levels_reply(Some(&levels)), format_levels(&levels));
    assert!(levels_reply(Some(&levels)).starts_with("Acrid: [1]\n"));
}

#[test]
fn plan_level_update_accepts_known_survivor_in_range() {
    assert_eq!(plan_level_update("Bandit", 1), Ok(Survivors::Bandit));
    assert_eq!(plan_level_update("VoidFiend", 9), Ok(Survivors::VoidFiend));
}

#[test]
fn plan_level_update_rejects_level_out_of_range() {
    let msg = "Invalid level provided. Valid levels are in the range 1 <= level <= 9".to_string();
    assert_eq!(plan_level_update("Bandit", 0), Err(msg.clone()));
    assert_eq!(plan_level_update("Bandit", 10), Err(msg.clone()));
    assert_eq!(plan_level_update("Nobody", -5), Err(msg));
}

#[test]
fn plan_level_update_rejects_unknown_name() {
    assert_eq!(
        plan_level_update("Chef", 3),
        Err("Invalid survivor name provided.".to_string())
    );
}

#[test]
fn level_update_reply_text() {
    assert_eq!(
        level_update_reply(Survivors::MulT, 4),
        "Updated survivor MulT to eclipse level [4]."
    );
}

#[test]
fn apply_level_to_stored_levels_changes_one_entry() {
    let stored = [3, 4, 5, 6, 7, 8, 9, 1, 2, 3, 4, 5, 6];
    let after = apply_level(Some(&stored), Survivors::Captain, 9);
    let mut expected = stored;
    expected[3] = 9;
    assert_eq!(after, expected);
}

#[test]
fn apply_level_for_new_player_starts_at_one() {
    let after = apply_level(None, Survivors::Rex, 5);
    let mut expected = [1; NUM_SURVIVORS];
    expected[10] = 5;
    assert_eq!(after, expected);
}

#[test]
fn set_then_get_shows_new_level() {
    let stored = [2; NUM_SURVIVORS];
    let after = apply_level(Some(&stored), Survivors::Huntress, 9);
    assert!(format_levels(&after).contains("Huntress: [Completed]\n"));
    let after = apply_level(None, Survivors::Loader, 6);
    assert!(format_levels(&after).contains("Loader: [6]\n"));
}

#[test]
fn unknown_user_reply_text() {
    assert_eq!(
        unknown_user_reply("nanx4"),
        "User nanx4 does not exist in the database.  Run set_survivor_eclipse_lvl first"
    );
}

#[test]
fn level_up_raises_by_one() {
    let levels = [1, 2, 3, 4, 5, 6, 7, 8, 9, 1, 2, 3, 4];
    let outcome = level_up(&levels, "Loader");
    assert_eq!(outcome.reply, Some("Loader level updated to 9".to_string()));
    let mut expected = levels;
    expected[7] = 9;
    assert_eq!(outcome.store, Some(expected));
}

#[test]
fn level_up_at_top_level_reports_completion() {
    let levels = [1, 2, 3, 4, 5, 6, 7, 8, 9, 1, 2, 3, 4];
    let outcome = level_up(&levels, "MulT");
    assert_eq!(
        outcome.reply,
        Some("MulT has already completed all eclipse levels.".to_string())
    );
    assert_eq!(outcome.store, None);
}

#[test]
fn level_up_above_top_level_stores_unchanged() {
    let mut levels = [1; NUM_SURVIVORS];
    levels[0] = 12;
    let outcome = level_up(&levels, "Acrid");
    assert_eq!(outcome.reply, None);
    assert_eq!(outcome.store, Some(levels));
}

#[test]
fn level_up_of_low_level_from_older_data() {
    let levels = [0; NUM_SURVIVORS];
    let outcome = level_up(&levels, "Rex");
    assert_eq!(outcome.reply, Some("Rex level updated to 1".to_string()));
}

#[test]
fn level_up_unknown_name() {
    let levels = [1; NUM_SURVIVORS];
    let outcome = level_up(&levels, "Drifter");
    assert_eq!(outcome.reply, Some("Invalid survivor name provided.".to_string()));
    assert_eq!(outcome.store, None);
}

#[test]
fn level_up_keeps_levels_in_range() {
    for i in 0..NUM_SURVIVORS {
        let levels = [9; NUM_SURVIVORS];
        let name = Survivors::index_to_survivor(i).survivor_to_name();
        let outcome = level_up(&levels, name);
        assert_eq!(outcome.store, None);
        let levels = [8; NUM_SURVIVORS];
        let stored = level_up(&levels, name).store.unwrap();
        assert!(stored.iter().all(|l| (1..=9).contains(l)));
    }
}
