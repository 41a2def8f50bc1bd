//! The decisions of the bot's level commands: what to reply and what to
//! store, given what the database held. Reading and writing the database
//! and sending replies are left to the caller.
use vstd::prelude::*;

use crate::selector::MAX_LEVEL;
use crate::survivor::{index_of, name_of, survivor_at, survivor_named, Survivors, NUM_SURVIVORS};
use crate::text::{
    canonical_decimal, contains_text, decimal_value, int_text, lemma_int_text_read_back, push_int,
};

verus! {

/// The lowest level that can be set.
pub const MIN_LEVEL: i32 = 1;

/// Whether `l` is a level that a player may set.
pub open spec fn level_in_range(l: int) -> bool {
    MIN_LEVEL <= l <= MAX_LEVEL
}

/// Whether every entry of a level array is a level that a player may set.
pub open spec fn levels_in_range(levels: Seq<i32>) -> bool {
    forall|i: int| 0 <= i < levels.len() ==> level_in_range(#[trigger] levels[i] as int)
}

/// How a level is shown in a listing: the top level as `Completed`, any
/// other as its number.
pub open spec fn level_text(l: int) -> Seq<char> {
    if l == MAX_LEVEL {
        "Completed"@
    } else {
        int_text(l)
    }
}

/// The listing line of the survivor at position `i` at level `l`.
pub open spec fn level_entry(i: int, l: int) -> Seq<char> {
    name_of(survivor_at(i)) + ": ["@ + level_text(l) + "]\n"@
}

/// The listing of a level array: one line per survivor, in roster order.
pub open spec fn levels_listing(levels: Seq<i32>) -> Seq<char>
    decreases levels.len(),
{
    if levels.len() == 0 {
        Seq::empty()
    } else {
        let k = levels.len() - 1;
        levels_listing(levels.take(k)) + level_entry(k, levels[k] as int)
    }
}

/// The reply to a player who has no stored levels.
pub open spec fn not_registered_text() -> Seq<char> {
    "You are not in the database. Run set_survivor_eclipse_lvl first and update your survivor levels"@
}

/// The reply to a level outside `1..=9`.
pub open spec fn invalid_level_text() -> Seq<char> {
    "Invalid level provided. Valid levels are in the range 1 <= level <= 9"@
}

/// The reply to a name that is no survivor's.
pub open spec fn invalid_name_text() -> Seq<char> {
    "Invalid survivor name provided."@
}

/// The reply to a player whose levels were set.
pub open spec fn level_set_text(s: Survivors, l: int) -> Seq<char> {
    "Updated survivor "@ + name_of(s) + " to eclipse level ["@ + int_text(l) + "]."@
}

/// The reply about a player that has no stored levels.
pub open spec fn unknown_user_text(user: Seq<char>) -> Seq<char> {
    "User "@ + user + " does not exist in the database.  Run set_survivor_eclipse_lvl first"@
}

/// The reply to a level-up that raised a survivor to level `l`.
pub open spec fn raised_text(s: Survivors, l: int) -> Seq<char> {
    name_of(s) + " level updated to "@ + int_text(l)
}

/// The reply to a level-up of a survivor already at the top level.
pub open spec fn completed_text(s: Survivors) -> Seq<char> {
    name_of(s) + " has already completed all eclipse levels."@
}

/// The levels of a player that had none stored: every survivor at level 1.
pub open spec fn fresh_levels() -> Seq<i32> {
    Seq::new(NUM_SURVIVORS as nat, |i: int| MIN_LEVEL)
}

/// The level array stored after setting survivor `s` to level `l`, from the
/// stored array, or from fresh levels when nothing was stored.
pub open spec fn levels_after_set(stored: Option<Seq<i32>>, s: Survivors, l: i32) -> Seq<i32> {
    match stored {
        Some(levels) => levels.update(index_of(s), l),
        None => fresh_levels().update(index_of(s), l),
    }
}

/// What a level-up of the survivor named `selection` replies and stores,
/// given the stored levels: `(reply, levels to store)`.
pub open spec fn level_up_plan(levels: Seq<i32>, selection: Seq<char>) -> (
    Option<Seq<char>>,
    Option<Seq<i32>>,
) {
    match survivor_named(selection) {
        None => (Some(invalid_name_text()), None),
        Some(s) => {
            let l = levels[index_of(s)];
            if l < MAX_LEVEL {
                (Some(raised_text(s, l + 1)), Some(levels.update(index_of(s), (l + 1) as i32)))
            } else if l == MAX_LEVEL {
                (Some(completed_text(s)), None)
            } else {
                (None, Some(levels))
            }
        },
    }
}

/// What a request to set the survivor named `selection` to level `l`
/// leads to: the survivor to update, or the refusal to reply with. The
/// level is checked before the name.
pub open spec fn level_update_plan(selection: Seq<char>, l: int) -> Result<Survivors, Seq<char>> {
    if !level_in_range(l) {
        Err(invalid_level_text())
    } else {
        match survivor_named(selection) {
            Some(s) => Ok(s),
            None => Err(invalid_name_text()),
        }
    }
}

/// The outcome of a level-up: the reply to send, if any, and the level
/// array to store, if any.
pub struct LevelUp {
    pub reply: Option<String>,
    pub store: Option<[i32; NUM_SURVIVORS]>,
}

impl View for LevelUp {
    type V = (Option<Seq<char>>, Option<Seq<i32>>);

    open spec fn view(&self) -> Self::V {
        (
            match self.reply {
                Some(r) => Some(r@),
                None => None,
            },
            match self.store {
                Some(levels) => Some(levels@),
                None => None,
            },
        )
    }
}

/// The listing of a player's levels: for each survivor, its name and its
/// level in brackets, `Completed` for the top level.
pub fn format_levels(levels: &[i32; NUM_SURVIVORS]) -> (listing: String)
    ensures
        listing@ == levels_listing(levels@),
{
    let mut listing = String::new();
    let mut index: usize = 0;
    while index < NUM_SURVIVORS
        invariant
            index <= NUM_SURVIVORS,
            levels@.len() == NUM_SURVIVORS,
            listing@ == levels_listing(levels@.take(index as int)),
        decreases NUM_SURVIVORS - index,
    {
        let ghost before = listing@;
        let level = levels[index];
        let survivor = Survivors::index_to_survivor(index);
        listing.append(survivor.survivor_to_name());
        listing.append(": [");
        if level == MAX_LEVEL {
            listing.append("Completed");
        } else {
            push_int(&mut listing, level);
        }
        listing.append("]\n");
        assert(levels@.take(index + 1).take(index as int) =~= levels@.take(index as int));
        assert(listing@ =~= levels_listing(levels@.take(index + 1)));
        index = index + 1;
    }
    assert(levels@.take(NUM_SURVIVORS as int) =~= levels@);
    listing
}

/// The reply to a request for a player's levels: the listing of the stored
/// levels, or a hint to set a level first when none are stored.
pub fn levels_reply(stored: Option<&[i32; NUM_SURVIVORS]>) -> (reply: String)
    ensures
        reply@ == match stored {
            Some(levels) => levels_listing(levels@),
            None => not_registered_text(),
        },
{
    match stored {
        Some(levels) => format_levels(levels),
        None => "You are not in the database. Run set_survivor_eclipse_lvl first and update your survivor levels".to_owned(),
    }
}

/// Checks a request to set survivor `selection` to level `new_lvl`: the
/// survivor to update, or the reply that refuses the request. The level is
/// checked first.
pub fn plan_level_update(selection: &str, new_lvl: i32) -> (plan: Result<Survivors, String>)
    ensures
        plan matches Ok(s) ==> level_update_plan(selection@, new_lvl as int) == Ok::<
            Survivors,
            Seq<char>,
        >(s),
        plan matches Err(m) ==> level_update_plan(selection@, new_lvl as int) == Err::<
            Survivors,
            Seq<char>,
        >(m@),
{
    if new_lvl < MIN_LEVEL || new_lvl > MAX_LEVEL {
        return Err(
            "Invalid level provided. Valid levels are in the range 1 <= level <= 9".to_owned(),
        );
    }
    match Survivors::name_to_survivor(selection) {
        Some(survivor) => Ok(survivor),
        None => Err("Invalid survivor name provided.".to_owned()),
    }
}

/// The reply to a player whose survivor was set to level `new_lvl`.
pub fn level_update_reply(survivor: Survivors, new_lvl: i32) -> (reply: String)
    ensures
        reply@ == level_set_text(survivor, new_lvl as int),
{
    let mut reply = "Updated survivor ".to_owned();
    reply.append(survivor.survivor_to_name());
    reply.append(" to eclipse level [");
    push_int(&mut reply, new_lvl);
    reply.append("].");
    assert(reply@ =~= level_set_text(survivor, new_lvl as int));
    reply
}

/// The level array to store after setting `survivor` to `new_lvl`: the
/// stored array with that entry replaced, or, for a player with nothing
/// stored, every survivor at level 1 but that one.
pub fn apply_level(stored: Option<&[i32; NUM_SURVIVORS]>, survivor: Survivors, new_lvl: i32) -> (levels: [i32; NUM_SURVIVORS])
    ensures
        levels@ == levels_after_set(
            match stored {
                Some(l) => Some(l@),
                None => None,
            },
            survivor,
            new_lvl,
        ),
{
    let mut levels: [i32; NUM_SURVIVORS] = match stored {
        Some(l) => *l,
        None => [1i32; NUM_SURVIVORS],
    };
    let index = survivor.survivor_to_index();
    levels[index] = new_lvl;
    assert(levels@ =~= levels_after_set(
        match stored {
            Some(l) => Some(l@),
            None => None,
        },
        survivor,
        new_lvl,
    ));
    levels
}

/// The reply about `user`, a player with no stored levels.
pub fn unknown_user_reply(user: &str) -> (reply: String)
    ensures
        reply@ == unknown_user_text(user@),
{
    let mut reply = "User ".to_owned();
    reply.append(user);
    reply.append(" does not exist in the database.  Run set_survivor_eclipse_lvl first");
    assert(reply@ =~= unknown_user_text(user@));
    reply
}

/// A level-up of the survivor named `selection`, given the stored levels:
/// a survivor below the top level goes up by one and the new levels are
/// stored; one at the top level is reported as completed and nothing is
/// stored; one above it is stored unchanged with no reply; an unknown name
/// is refused.
pub fn level_up(levels: &[i32; NUM_SURVIVORS], selection: &str) -> (outcome: LevelUp)
    ensures
        outcome@ == level_up_plan(levels@, selection@),
{
    let survivor = match Survivors::name_to_survivor(selection) {
        Some(survivor) => survivor,
        None => {
            return LevelUp { reply: Some("Invalid survivor name provided.".to_owned()), store: None };
        },
    };
    let index = survivor.survivor_to_index();
    let level = levels[index];
    if level < MAX_LEVEL {
        let mut raised = *levels;
        raised[index] = level + 1;
        let mut reply = survivor.to_string();
        reply.append(" level updated to ");
        push_int(&mut reply, level + 1);
        assert(reply@ =~= raised_text(survivor, level + 1));
        assert(raised@ =~= levels@.update(index_of(survivor), (level + 1) as i32));
        LevelUp { reply: Some(reply), store: Some(raised) }
    } else if level == MAX_LEVEL {
        let mut reply = survivor.to_string();
        reply.append(" has already completed all eclipse levels.");
        assert(reply@ =~= completed_text(survivor));
        LevelUp { reply: Some(reply), store: None }
    } else {
        LevelUp { reply: None, store: Some(*levels) }
    }
}

/// The listing of a level array holds, for every position, the line of the
/// survivor there with its level.
pub proof fn lemma_listing_has_entry(levels: Seq<i32>, i: int)
    requires
        0 <= i < levels.len(),
    ensures
        contains_text(
            levels_listing(levels),
            name_of(survivor_at(i)) + ": ["@ + (if levels[i] == 9 {
                "Completed"@
            } else {
                int_text(levels[i] as int)
            }) + "]\n"@,
        ),
    decreases levels.len(),
{
    let k = levels.len() - 1;
    let entry = level_entry(i, levels[i] as int);
    if i == k {
        let before = levels_listing(levels.take(k));
        assert(levels_listing(levels) =~= before + entry + Seq::<char>::empty());
    } else {
        let prefix = levels.take(k);
        lemma_listing_has_entry(prefix, i);
        assert(prefix[i] == levels[i]);
        let (before, after) = choose|before: Seq<char>, after: Seq<char>|
            levels_listing(prefix) == before + entry + after;
        assert(levels_listing(levels) =~= before + entry + (after + level_entry(
            k,
            levels[k] as int,
        )));
    }
}

/// After a survivor is set to a level, the listing of the stored levels
/// shows that survivor at that level.
pub proof fn lemma_set_then_listed(stored: Option<Seq<i32>>, s: Survivors, l: i32)
    requires
        stored matches Some(levels) ==> levels.len() == NUM_SURVIVORS,
    ensures
        contains_text(
            levels_listing(levels_after_set(stored, s, l)),
            name_of(s) + ": ["@ + (if l == 9 {
                "Completed"@
            } else {
                int_text(l as int)
            }) + "]\n"@,
        ),
{
    crate::survivor::lemma_index_roundtrip(s);
    let levels = levels_after_set(stored, s, l);
    lemma_listing_has_entry(levels, index_of(s));
    let (before, after) = choose|before: Seq<char>, after: Seq<char>|
        levels_listing(levels) == before + level_entry(index_of(s), levels[index_of(s)] as int)
            + after;
    assert(levels_listing(levels) =~= before + (name_of(s) + ": ["@ + level_text(l as int)
        + "]\n"@) + after);
}

/// A player with nothing stored starts with every level in range.
pub proof fn lemma_fresh_levels_in_range()
    ensures
        levels_in_range(fresh_levels()),
        fresh_levels().len() == NUM_SURVIVORS,
{
}

/// An accepted request to set a level keeps every stored level in range.
pub proof fn lemma_set_keeps_range(
    stored: Option<Seq<i32>>,
    selection: Seq<char>,
    l: i32,
    s: Survivors,
)
    requires
        stored matches Some(levels) ==> levels.len() == NUM_SURVIVORS && levels_in_range(levels),
        level_update_plan(selection, l as int) == Ok::<Survivors, Seq<char>>(s),
    ensures
        levels_in_range(levels_after_set(stored, s, l)),
{
    crate::survivor::lemma_index_roundtrip(s);
    let after = levels_after_set(stored, s, l);
    let base = match stored {
        Some(levels) => levels,
        None => fresh_levels(),
    };
    assert forall|i: int| 0 <= i < after.len() implies level_in_range(#[trigger] after[i] as int) by {
        if i != index_of(s) {
            assert(after[i] == base[i]);
        }
    }
}

/// A level-up keeps every stored level in range, and never stores a level
/// above the top level taken from levels that were in range.
pub proof fn lemma_level_up_keeps_range(levels: Seq<i32>, selection: Seq<char>)
    requires
        levels.len() == NUM_SURVIVORS,
        levels_in_range(levels),
    ensures
        level_up_plan(levels, selection).1 matches Some(stored) ==> levels_in_range(stored),
{
    if let Some(s) = survivor_named(selection) {
        crate::survivor::lemma_index_roundtrip(s);
    }
}

/// A request to set a survivor, named by its display name, to a level from
/// 1 to 9 is accepted for that survivor.
pub proof fn lemma_set_accepts_known_survivor(s: Survivors, l: int)
    requires
        1 <= l <= 9,
    ensures
        level_update_plan(name_of(s), l) == Ok::<Survivors, Seq<char>>(s),
{
    crate::survivor::lemma_name_roundtrip(s);
}

/// A request with a level outside 1..=9 is refused for its level, whatever
/// the name.
pub proof fn lemma_set_refuses_level_out_of_range(selection: Seq<char>, l: int)
    requires
        !(1 <= l <= 9),
    ensures
        level_update_plan(selection, l) == Err::<Survivors, Seq<char>>(
            "Invalid level provided. Valid levels are in the range 1 <= level <= 9"@,
        ),
{
}

/// A request with a level in range and a name that is no survivor's is
/// refused for its name.
pub proof fn lemma_set_refuses_unknown_name(selection: Seq<char>, l: int)
    requires
        1 <= l <= 9,
        forall|s: Survivors| name_of(s) != selection,
    ensures
        level_update_plan(selection, l) == Err::<Survivors, Seq<char>>(
            "Invalid survivor name provided."@,
        ),
{
}

/// The reply to a set level names the survivor and, between the brackets,
/// a canonical decimal text whose value is exactly the level that was set.
pub proof fn lemma_set_reply_quotes_level(s: Survivors, l: i32)
    ensures
        exists|d: Seq<char>|
            {
                &&& level_set_text(s, l as int) == "Updated survivor "@ + name_of(s)
                    + " to eclipse level ["@ + d + "]."@
                &&& canonical_decimal(d)
                &&& decimal_value(d) == l
            },
{
    let d = int_text(l as int);
    lemma_int_text_read_back(l as int);
    assert(level_set_text(s, l as int) == "Updated survivor "@ + name_of(s) + " to eclipse level ["@
        + d + "]."@);
}

/// Setting survivor `s` to level `l` stores an array of all survivors in
/// which position `index_of(s)` holds `l` and every other position holds
/// what was stored there, or 1 for a player with nothing stored.
pub proof fn lemma_set_changes_only_that_survivor(stored: Option<Seq<i32>>, s: Survivors, l: i32)
    requires
        stored matches Some(levels) ==> levels.len() == NUM_SURVIVORS,
    ensures
        levels_after_set(stored, s, l).len() == NUM_SURVIVORS,
        levels_after_set(stored, s, l)[index_of(s)] == l,
        forall|i: int|
            0 <= i < NUM_SURVIVORS && i != index_of(s) ==> #[trigger] levels_after_set(
                stored,
                s,
                l,
            )[i] == match stored {
                Some(levels) => levels[i],
                None => 1i32,
            },
{
    crate::survivor::lemma_index_roundtrip(s);
}

/// A level-up of survivor `s`, named by its display name, whose stored
/// level `l` is below 9: the reply quotes `l + 1`, and the stored array
/// differs from the input only at position `index_of(s)`, which becomes
/// `l + 1`.
pub proof fn lemma_level_up_raises_that_survivor(levels: Seq<i32>, s: Survivors)
    requires
        levels.len() == NUM_SURVIVORS,
        levels[index_of(s)] < 9,
    ensures
        ({
            let l = levels[index_of(s)];
            let (reply, store) = level_up_plan(levels, name_of(s));
            &&& reply == Some(name_of(s) + " level updated to "@ + int_text(l + 1))
            &&& store is Some
            &&& store->0.len() == levels.len()
            &&& store->0[index_of(s)] == l + 1
            &&& forall|i: int|
                0 <= i < levels.len() && i != index_of(s) ==> #[trigger] store->0[i] == levels[i]
        }),
{
    crate::survivor::lemma_name_roundtrip(s);
    crate::survivor::lemma_index_roundtrip(s);
}

/// A level-up of survivor `s` already at level 9 replies that it has
/// completed all levels and stores nothing; one above 9 replies nothing
/// and stores the levels unchanged.
pub proof fn lemma_level_up_at_or_above_top(levels: Seq<i32>, s: Survivors)
    requires
        levels.len() == NUM_SURVIVORS,
        levels[index_of(s)] >= 9,
    ensures
        levels[index_of(s)] == 9 ==> level_up_plan(levels, name_of(s)) == (
            Some(name_of(s) + " has already completed all eclipse levels."@),
            None::<Seq<i32>>,
        ),
        levels[index_of(s)] > 9 ==> level_up_plan(levels, name_of(s)) == (
            None::<Seq<char>>,
            Some(levels),
        ),
{
    crate::survivor::lemma_name_roundtrip(s);
}

/// A level-up with a name that is no survivor's is refused and stores
/// nothing.
pub proof fn lemma_level_up_refuses_unknown_name(levels: Seq<i32>, selection: Seq<char>)
    requires
        forall|s: Survivors| name_of(s) != selection,
    ensures
        level_up_plan(levels, selection) == (
            Some("Invalid survivor name provided."@),
            None::<Seq<i32>>,
        ),
{
}

/// The listing of a level array is exactly one line per survivor, in
/// roster order: its name, then its level in brackets, `Completed` for 9.
pub proof fn lemma_listing_is_one_line_per_survivor(levels: Seq<i32>)
    ensures
        levels_listing(levels) == Seq::new(levels.len(), |i: int| i).map_values(
            |i: int|
                name_of(survivor_at(i)) + ": ["@ + (if levels[i] == 9 {
                    "Completed"@
                } else {
                    int_text(levels[i] as int)
                }) + "]\n"@,
        ).flatten(),
{
    let p = |i: int| true;
    let f = |i: int|
        name_of(survivor_at(i)) + ": ["@ + (if levels[i] == 9 {
            "Completed"@
        } else {
            int_text(levels[i] as int)
        }) + "]\n"@;
    lemma_listing_prefix(levels, levels.len());
    assert(levels.take(levels.len() as int) =~= levels);
    let all = Seq::new(levels.len(), |i: int| i + 0);
    assert(all.filter(p) =~= all) by {
        lemma_filter_all(all);
    }
    assert(Seq::new(levels.len(), |i: int| i) =~= all);
    all.map_values(f).lemma_flatten_and_flatten_alt_are_equivalent();
}

proof fn lemma_filter_all(s: Seq<int>)
    ensures
        s.filter(|i: int| true) == s,
    decreases s.len(),
{
    reveal(Seq::filter);
    if s.len() > 0 {
        lemma_filter_all(s.drop_last());
        assert(s.drop_last().push(s.last()) =~= s);
    }
}

proof fn lemma_listing_prefix(levels: Seq<i32>, n: nat)
    requires
        n <= levels.len(),
    ensures
        levels_listing(levels.take(n as int)) == Seq::new(n, |i: int| i + 0).filter(|i: int| true).map_values(
            |i: int|
                name_of(survivor_at(i)) + ": ["@ + (if levels[i] == 9 {
                    "Completed"@
                } else {
                    int_text(levels[i] as int)
                }) + "]\n"@,
        ).flatten_alt(),
    decreases n,
{
    let p = |i: int| true;
    let f = |i: int|
        name_of(survivor_at(i)) + ": ["@ + (if levels[i] == 9 {
            "Completed"@
        } else {
            int_text(levels[i] as int)
        }) + "]\n"@;
    if n == 0 {
        reveal(Seq::filter);
        assert(Seq::new(0, |i: int| i + 0).filter(p) =~= Seq::<int>::empty());
        assert(Seq::new(0, |i: int| i + 0).filter(p).map_values(f) =~= Seq::<Seq<char>>::empty());
    } else {
        let m = (n - 1) as nat;
        lemma_listing_prefix(levels, m);
        crate::selector::lemma_joined_step(m, 0, p, f);
        assert(levels.take(n as int).take(m as int) =~= levels.take(m as int));
        assert(levels.take(n as int)[m as int] == levels[m as int]);
    }
}

/// The reply about a player with no stored levels quotes the player's name
/// exactly.
pub proof fn lemma_unknown_user_reply_quotes_name(user: Seq<char>)
    ensures
        unknown_user_text(user) == "User "@ + user
            + " does not exist in the database.  Run set_survivor_eclipse_lvl first"@,
{
}

} // verus!
