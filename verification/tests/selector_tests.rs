use rust_tracker_bot::selector::{build_response, select_users};
use rust_tracker_bot::survivor::NUM_SURVIVORS;

fn row(entries: &[(usize, i32)]) -> [i32; NUM_SURVIVORS] {
    let mut r = [0; NUM_SURVIVORS];
    for (i, l) in entries {
        r[*i] = *l;
    }
    r
}

#[test]
fn select_users_drops_none() {
    let users = select_users(&["obama5542", "None", "nanx4", "None"]);
    assert_eq!(users, vec!["obama5542".to_string(), "nanx4".to_string()]);
    assert!(select_users(&["None", "None", "None", "None"]).is_empty());
}

#[test]
fn build_response_groups_by_level() {
    let users = vec!["alice".to_string(), "bob".to_string()];
    let matrix = vec![
        row(&[(0, 1), (1, 9)]),
        row(&[(0, 1), (2, 3)]),
        row(&[(3, 2)]),
        row(&[]),
    ];
    let expected = "Eclipse 1:\n    alice: Acrid, \n    bob: Acrid, \n\n\
Eclipse 3:\n    bob: Bandit, \n\n\
Eclipse completed\n    alice: Artificer, \n\n";
    assert_eq!(build_response(&users, &matrix), expected);
}

#[test]
fn build_response_lists_several_survivors_in_roster_order() {
    let users = vec!["prnvs".to_string()];
    let matrix = vec![row(&[(12, 4), (4, 4), (8, 4)])];
    assert_eq!(
        build_response(&users, &matrix),
        "Eclipse 4:\n    prnvs: Commando, MulT, VoidFiend, \n\n"
    );
}

#[test]
fn build_response_empty_when_no_level_reached() {
    let users = vec!["alice".to_string()];
    let matrix = vec![[0; NUM_SURVIVORS], [3; NUM_SURVIVORS]];
    assert_eq!(build_response(&users, &matrix), "");
    assert_eq!(build_response(&[], &matrix), "");
}

#[test]
fn build_response_every_survivor_completed() {
    let users = vec!["x".to_string()];
    let matrix = vec![[9; NUM_SURVIVORS]];
    assert_eq!(
        build_response(&users, &matrix),
        "Eclipse completed\n    x: Acrid, Artificer, Bandit, Captain, Commando, Engineer, \
Huntress, Loader, MulT, Mercenary, Rex, Railgunner, VoidFiend, \n\n"
    );
}
