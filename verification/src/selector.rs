//! The eclipse class selector: for a group of players, which survivors
//! each of them has at each eclipse level.
use vstd::prelude::*;

use crate::survivor::{name_of, survivor_at, Survivors, NUM_SURVIVORS};
use crate::text::{contains_text, int_text, push_int, same_text};

verus! {

/// The highest eclipse level; a survivor at this level has completed them all.
pub const MAX_LEVEL: i32 = 9;

/// Whether some survivor in `row` is at level `lvl`.
pub open spec fn has_level(row: Seq<i32>, lvl: int) -> bool {
    exists|j: int| 0 <= j < row.len() && row[j] == lvl
}

/// The names of the survivors in `row` whose level is `lvl`, in roster
/// order, each followed by `", "`.
pub open spec fn names_at_level(row: Seq<i32>, lvl: int) -> Seq<char>
    decreases row.len(),
{
    if row.len() == 0 {
        Seq::empty()
    } else {
        let k = row.len() - 1;
        names_at_level(row.take(k), lvl) + if row[k] == lvl {
            name_of(survivor_at(k)) + ", "@
        } else {
            Seq::empty()
        }
    }
}

/// The line of one player under level `lvl`: indented, the player's name,
/// then the survivors at that level; no line when there are none.
pub open spec fn user_line(user: Seq<char>, row: Seq<i32>, lvl: int) -> Seq<char> {
    if has_level(row, lvl) {
        "    "@ + user + ": "@ + names_at_level(row, lvl) + "\n"@
    } else {
        Seq::empty()
    }
}

/// The lines of the first `n` players under level `lvl`.
pub open spec fn level_lines(
    users: Seq<String>,
    rows: Seq<[i32; NUM_SURVIVORS]>,
    lvl: int,
    n: int,
) -> Seq<char>
    decreases n,
{
    if n <= 0 {
        Seq::empty()
    } else {
        level_lines(users, rows, lvl, n - 1) + user_line(users[n - 1]@, rows[n - 1]@, lvl)
    }
}

/// Whether some player has a survivor at level `lvl`.
pub open spec fn level_reached(users: Seq<String>, rows: Seq<[i32; NUM_SURVIVORS]>, lvl: int) -> bool {
    exists|u: int| 0 <= u < users.len() && has_level(#[trigger] rows[u]@, lvl)
}

/// The heading of the section of level `lvl`.
pub open spec fn level_heading(lvl: int) -> Seq<char> {
    if lvl == MAX_LEVEL {
        "Eclipse completed\n"@
    } else {
        "Eclipse "@ + int_text(lvl) + ":\n"@
    }
}

/// The section of level `lvl`: heading, the players' lines and a blank
/// line; nothing when no player has a survivor at that level.
pub open spec fn level_section(users: Seq<String>, rows: Seq<[i32; NUM_SURVIVORS]>, lvl: int) -> Seq<
    char,
> {
    if level_reached(users, rows, lvl) {
        level_heading(lvl) + level_lines(users, rows, lvl, users.len() as int) + "\n"@
    } else {
        Seq::empty()
    }
}

/// The sections of levels `1` through `upto`, in increasing order.
pub open spec fn eclipse_report(users: Seq<String>, rows: Seq<[i32; NUM_SURVIVORS]>, upto: int) -> Seq<
    char,
>
    decreases upto,
{
    if upto < 1 {
        Seq::empty()
    } else {
        eclipse_report(users, rows, upto - 1) + level_section(users, rows, upto)
    }
}

/// The players picked in the selector, in order, leaving out the choices
/// `"None"`.
pub open spec fn picked_players(choices: Seq<&str>) -> Seq<Seq<char>>
    decreases choices.len(),
{
    if choices.len() == 0 {
        Seq::empty()
    } else {
        let k = choices.len() - 1;
        picked_players(choices.take(k)) + if choices[k]@ == "None"@ {
            Seq::empty()
        } else {
            seq![choices[k]@]
        }
    }
}

/// The players picked in the selector, leaving out the choices `"None"`.
pub fn select_users(choices: &[&str]) -> (users: Vec<String>)
    ensures
        users@.map_values(|u: String| u@) == picked_players(choices@),
        users@.map_values(|u: String| u@) == choices@.map_values(|c: &str| c@).filter(
            |c: Seq<char>| c != "None"@,
        ),
{
    let mut users: Vec<String> = Vec::new();
    let mut k: usize = 0;
    while k < choices.len()
        invariant
            k <= choices.len(),
            users@.map_values(|u: String| u@) == picked_players(choices@.take(k as int)),
        decreases choices.len() - k,
    {
        let choice = choices[k];
        let ghost before = users@.map_values(|u: String| u@);
        assert(choices@.take(k + 1).take(k as int) =~= choices@.take(k as int));
        if !same_text(choice, "None") {
            users.push(choice.to_owned());
        }
        assert(users@.map_values(|u: String| u@) =~= picked_players(choices@.take(k + 1)));
        k = k + 1;
    }
    assert(choices@.take(choices.len() as int) =~= choices@);
    proof {
        lemma_picked_players_are_non_none_choices(choices@);
    }
    users
}

/// Whether some survivor in `row` is at level `lvl`.
fn row_has_level(row: &[i32; NUM_SURVIVORS], lvl: i32) -> (found: bool)
    ensures
        found == has_level(row@, lvl as int),
{
    let mut j: usize = 0;
    while j < NUM_SURVIVORS
        invariant
            j <= NUM_SURVIVORS,
            row@.len() == NUM_SURVIVORS,
            forall|k: int| 0 <= k < j ==> row@[k] != lvl,
        decreases NUM_SURVIVORS - j,
    {
        if row[j] == lvl {
            return true;
        }
        j = j + 1;
    }
    false
}

/// Whether one of the players has a survivor at level `lvl`.
fn any_user_at_level(users: &[String], lvls_matrix: &[[i32; NUM_SURVIVORS]], lvl: i32) -> (found:
    bool)
    requires
        users.len() <= lvls_matrix.len(),
    ensures
        found == level_reached(users@, lvls_matrix@, lvl as int),
{
    let mut u: usize = 0;
    while u < users.len()
        invariant
            u <= users.len(),
            users.len() <= lvls_matrix.len(),
            forall|v: int| 0 <= v < u ==> !has_level(#[trigger] lvls_matrix@[v]@, lvl as int),
        decreases users.len() - u,
    {
        if row_has_level(&lvls_matrix[u], lvl) {
            return true;
        }
        u = u + 1;
    }
    false
}

/// Appends the line of player `user` under level `lvl`.
fn push_user_line(out: &mut String, user: &String, row: &[i32; NUM_SURVIVORS], lvl: i32)
    ensures
        final(out)@ == old(out)@ + user_line(user@, row@, lvl as int),
{
    let mut names = String::new();
    let mut found = false;
    let mut j: usize = 0;
    while j < NUM_SURVIVORS
        invariant
            j <= NUM_SURVIVORS,
            row@.len() == NUM_SURVIVORS,
            names@ == names_at_level(row@.take(j as int), lvl as int),
            found == has_level(row@.take(j as int), lvl as int),
        decreases NUM_SURVIVORS - j,
    {
        let ghost before = names@;
        assert(row@.take(j + 1).take(j as int) =~= row@.take(j as int));
        if row[j] == lvl {
            names.append(Survivors::index_to_survivor(j).survivor_to_name());
            names.append(", ");
            found = true;
            assert(has_level(row@.take(j + 1), lvl as int)) by {
                assert(row@.take(j + 1)[j as int] == lvl);
            }
        } else {
            assert(has_level(row@.take(j + 1), lvl as int) == has_level(
                row@.take(j as int),
                lvl as int,
            )) by {
                let t = row@.take(j + 1);
                if has_level(t, lvl as int) {
                    let k = choose|k: int| 0 <= k < t.len() && #[trigger] t[k] == lvl as int;
                    assert(row@.take(j as int)[k] == lvl);
                }
            }
        }
        assert(names@ =~= names_at_level(row@.take(j + 1), lvl as int));
        j = j + 1;
    }
    assert(row@.take(NUM_SURVIVORS as int) =~= row@);
    if found {
        out.append("    ");
        out.append(user.as_str());
        out.append(": ");
        out.append(names.as_str());
        out.append("\n");
    }
    assert(final(out)@ =~= old(out)@ + user_line(user@, row@, lvl as int));
}

/// The reply of the eclipse class selector: for each eclipse level from 1
/// to 9 that some player has reached with some survivor, a section that
/// lists, for each such player, the survivors at that level.
/// `lvls_matrix[u]` holds the levels of player `users[u]`.
pub fn build_response(users: &[String], lvls_matrix: &[[i32; NUM_SURVIVORS]]) -> (response: String)
    requires
        users.len() <= lvls_matrix.len(),
    ensures
        response@ == eclipse_report(users@, lvls_matrix@, MAX_LEVEL as int),
{
    let mut response = String::new();
    let mut i: i32 = 1;
    while i <= MAX_LEVEL
        invariant
            1 <= i <= MAX_LEVEL + 1,
            users.len() <= lvls_matrix.len(),
            response@ == eclipse_report(users@, lvls_matrix@, i - 1),
        decreases MAX_LEVEL + 1 - i,
    {
        let ghost before = response@;
        if any_user_at_level(users, lvls_matrix, i) {
            if i == MAX_LEVEL {
                response.append("Eclipse completed\n");
            } else {
                response.append("Eclipse ");
                push_int(&mut response, i);
                response.append(":\n");
            }
            assert(response@ =~= before + level_heading(i as int));
            let mut u: usize = 0;
            while u < users.len()
                invariant
                    u <= users.len(),
                    users.len() <= lvls_matrix.len(),
                    response@ == before + level_heading(i as int) + level_lines(
                        users@,
                        lvls_matrix@,
                        i as int,
                        u as int,
                    ),
                decreases users.len() - u,
            {
                push_user_line(&mut response, &users[u], &lvls_matrix[u], i);
                assert(response@ =~= before + level_heading(i as int) + level_lines(
                    users@,
                    lvls_matrix@,
                    i as int,
                    u + 1,
                ));
                u = u + 1;
            }
            response.append("\n");
        }
        assert(response@ =~= eclipse_report(users@, lvls_matrix@, i as int));
        i = i + 1;
    }
    response
}

/// A survivor at level `lvl` in `row` is named among the survivors at that
/// level.
pub proof fn lemma_names_include(row: Seq<i32>, lvl: int, j: int)
    requires
        0 <= j < row.len(),
        row[j] == lvl,
    ensures
        contains_text(names_at_level(row, lvl), name_of(survivor_at(j)) + ", "@),
    decreases row.len(),
{
    let k = row.len() - 1;
    let needle = name_of(survivor_at(j)) + ", "@;
    if j == k {
        let before = names_at_level(row.take(k), lvl);
        assert(names_at_level(row, lvl) =~= before + needle + Seq::<char>::empty());
    } else {
        let prefix = row.take(k);
        assert(prefix[j] == row[j]);
        lemma_names_include(prefix, lvl, j);
        let (before, after) = choose|before: Seq<char>, after: Seq<char>|
            names_at_level(prefix, lvl) == before + needle + after;
        let last = if row[k] == lvl {
            name_of(survivor_at(k)) + ", "@
        } else {
            Seq::empty()
        };
        assert(names_at_level(row, lvl) =~= before + needle + (after + last));
    }
}

/// The lines under a level include the line of each of the first `n` players.
pub proof fn lemma_lines_include(
    users: Seq<String>,
    rows: Seq<[i32; NUM_SURVIVORS]>,
    lvl: int,
    n: int,
    u: int,
)
    requires
        0 <= u < n,
    ensures
        contains_text(level_lines(users, rows, lvl, n), user_line(users[u]@, rows[u]@, lvl)),
    decreases n,
{
    let needle = user_line(users[u]@, rows[u]@, lvl);
    if u == n - 1 {
        let before = level_lines(users, rows, lvl, n - 1);
        assert(level_lines(users, rows, lvl, n) =~= before + needle + Seq::<char>::empty());
    } else {
        lemma_lines_include(users, rows, lvl, n - 1, u);
        let (before, after) = choose|before: Seq<char>, after: Seq<char>|
            level_lines(users, rows, lvl, n - 1) == before + needle + after;
        assert(level_lines(users, rows, lvl, n) =~= before + needle + (after + user_line(
            users[n - 1]@,
            rows[n - 1]@,
            lvl,
        )));
    }
}

/// The report up to level `upto` includes the section of every level from
/// 1 to `upto`.
pub proof fn lemma_report_includes_section(
    users: Seq<String>,
    rows: Seq<[i32; NUM_SURVIVORS]>,
    upto: int,
    lvl: int,
)
    requires
        1 <= lvl <= upto,
    ensures
        contains_text(eclipse_report(users, rows, upto), level_section(users, rows, lvl)),
    decreases upto,
{
    let needle = level_section(users, rows, lvl);
    if lvl == upto {
        let before = eclipse_report(users, rows, upto - 1);
        assert(eclipse_report(users, rows, upto) =~= before + needle + Seq::<char>::empty());
    } else {
        lemma_report_includes_section(users, rows, upto - 1, lvl);
        let (before, after) = choose|before: Seq<char>, after: Seq<char>|
            eclipse_report(users, rows, upto - 1) == before + needle + after;
        assert(eclipse_report(users, rows, upto) =~= before + needle + (after + level_section(
            users,
            rows,
            upto,
        )));
    }
}

/// Text contained in a piece of a larger text is contained in the larger text.
proof fn lemma_contains_trans(outer: Seq<char>, middle: Seq<char>, inner: Seq<char>)
    requires
        contains_text(outer, middle),
        contains_text(middle, inner),
    ensures
        contains_text(outer, inner),
{
    let (b1, a1) = choose|b: Seq<char>, a: Seq<char>| outer == b + middle + a;
    let (b2, a2) = choose|b: Seq<char>, a: Seq<char>| middle == b + inner + a;
    assert(outer =~= (b1 + b2) + inner + (a2 + a1));
}

/// Every survivor that a picked player has at a level from 1 to 9 is named
/// in the report, on that player's line under that level.
pub proof fn lemma_survivor_reported(
    users: Seq<String>,
    rows: Seq<[i32; NUM_SURVIVORS]>,
    u: int,
    j: int,
)
    requires
        users.len() <= rows.len(),
        0 <= u < users.len(),
        0 <= j < NUM_SURVIVORS,
        1 <= rows[u]@[j] <= MAX_LEVEL,
    ensures
        contains_text(
            eclipse_report(users, rows, MAX_LEVEL as int),
            user_line(users[u]@, rows[u]@, rows[u]@[j] as int),
        ),
        contains_text(
            user_line(users[u]@, rows[u]@, rows[u]@[j] as int),
            name_of(survivor_at(j)) + ", "@,
        ),
{
    let row = rows[u]@;
    let lvl = row[j] as int;
    let line = user_line(users[u]@, row, lvl);
    assert(has_level(row, lvl));
    assert(level_reached(users, rows, lvl));
    lemma_names_include(row, lvl, j);
    let (nb, na) = choose|b: Seq<char>, a: Seq<char>|
        names_at_level(row, lvl) == b + (name_of(survivor_at(j)) + ", "@) + a;
    assert(line =~= ("    "@ + users[u]@ + ": "@ + nb) + (name_of(survivor_at(j)) + ", "@) + (na
        + "\n"@));
    lemma_lines_include(users, rows, lvl, users.len() as int, u);
    let section = level_section(users, rows, lvl);
    let (lb, la) = choose|b: Seq<char>, a: Seq<char>|
        level_lines(users, rows, lvl, users.len() as int) == b + line + a;
    assert(section =~= (level_heading(lvl) + lb) + line + (la + "\n"@));
    lemma_report_includes_section(users, rows, MAX_LEVEL as int, lvl);
    lemma_contains_trans(eclipse_report(users, rows, MAX_LEVEL as int), section, line);
}

/// The report is empty exactly when no picked player has a survivor at any
/// level from 1 to `upto`.
pub proof fn lemma_report_empty(users: Seq<String>, rows: Seq<[i32; NUM_SURVIVORS]>, upto: int)
    ensures
        eclipse_report(users, rows, upto).len() == 0 <==> forall|lvl: int|
            1 <= lvl <= upto ==> !#[trigger] level_reached(users, rows, lvl),
    decreases upto,
{
    reveal_strlit("Eclipse completed\n");
    reveal_strlit("Eclipse ");
    if upto >= 1 {
        lemma_report_empty(users, rows, upto - 1);
        if level_reached(users, rows, upto) {
            assert(level_section(users, rows, upto).len() > 0);
        }
    }
}

/// Under every level `L` from 1 to 9 that a picked player has reached with
/// survivor `j`, the report holds the heading of `L` (`"Eclipse L:"` in
/// decimal for 1 to 8, `"Eclipse completed"` for 9), followed within that
/// section by the player's line, which names the survivor.
pub proof fn lemma_survivor_under_its_heading(
    users: Seq<String>,
    rows: Seq<[i32; NUM_SURVIVORS]>,
    u: int,
    j: int,
)
    requires
        users.len() <= rows.len(),
        0 <= u < users.len(),
        0 <= j < NUM_SURVIVORS,
        1 <= rows[u]@[j] <= 9,
    ensures
        exists|lines: Seq<char>, names: Seq<char>|
            {
                &&& contains_text(
                    eclipse_report(users, rows, 9),
                    (if rows[u]@[j] == 9 {
                        "Eclipse completed\n"@
                    } else {
                        "Eclipse "@ + int_text(rows[u]@[j] as int) + ":\n"@
                    }) + lines + "\n"@,
                )
                &&& contains_text(lines, "    "@ + users[u]@ + ": "@ + names + "\n"@)
                &&& contains_text(names, name_of(survivor_at(j)) + ", "@)
            },
{
    let row = rows[u]@;
    let lvl = row[j] as int;
    assert(has_level(row, lvl));
    assert(level_reached(users, rows, lvl));
    let lines = level_lines(users, rows, lvl, users.len() as int);
    let names = names_at_level(row, lvl);
    lemma_report_includes_section(users, rows, MAX_LEVEL as int, lvl);
    lemma_lines_include(users, rows, lvl, users.len() as int, u);
    lemma_names_include(row, lvl, j);
    assert(user_line(users[u]@, row, lvl) == "    "@ + users[u]@ + ": "@ + names + "\n"@);
    assert(level_section(users, rows, lvl) == (if lvl == 9 {
        "Eclipse completed\n"@
    } else {
        "Eclipse "@ + int_text(lvl) + ":\n"@
    }) + lines + "\n"@);
}

/// The picked players are exactly the choices other than `"None"`, in the
/// order given.
pub proof fn lemma_picked_players_are_non_none_choices(choices: Seq<&str>)
    ensures
        picked_players(choices) == choices.map_values(|c: &str| c@).filter(
            |c: Seq<char>| c != "None"@,
        ),
    decreases choices.len(),
{
    reveal(Seq::filter);
    if choices.len() > 0 {
        let k = choices.len() - 1;
        lemma_picked_players_are_non_none_choices(choices.take(k));
        assert(choices.take(k).map_values(|c: &str| c@) =~= choices.map_values(|c: &str| c@).drop_last());
    }
    assert(picked_players(choices) =~= choices.map_values(|c: &str| c@).filter(
        |c: Seq<char>| c != "None"@,
    ));
}

/// The pieces `f(j)` for the `j` in `b .. b + n` that satisfy `p`, joined in
/// order, grow by `f(b + n)` when the range is extended by `b + n` and it
/// satisfies `p`.
pub(crate) proof fn lemma_joined_step<A>(n: nat, b: int, p: spec_fn(int) -> bool, f: spec_fn(int) -> Seq<A>)
    ensures
        Seq::new(n + 1, |j: int| j + b).filter(p).map_values(f).flatten_alt() == Seq::new(
            n,
            |j: int| j + b,
        ).filter(p).map_values(f).flatten_alt() + if p(n + b) {
            f(n + b)
        } else {
            Seq::empty()
        },
{
    reveal(Seq::filter);
    let longer = Seq::new(n + 1, |j: int| j + b);
    let shorter = Seq::new(n, |j: int| j + b);
    assert(longer.drop_last() =~= shorter);
    assert(longer.last() == n + b);
    let kept = shorter.filter(p);
    if p(n + b) {
        assert(longer.filter(p) == kept.push(n + b));
        let mapped = kept.push(n + b).map_values(f);
        assert(mapped.drop_last() =~= kept.map_values(f));
        assert(mapped.last() == f(n + b));
    } else {
        assert(longer.filter(p) == kept);
        assert(kept.map_values(f).flatten_alt() =~= kept.map_values(f).flatten_alt() + Seq::<
            A,
        >::empty());
    }
}

/// The survivors named at level `lvl` in a row are exactly those whose
/// entry is `lvl`, in roster order, each name followed by `", "`.
pub proof fn lemma_names_are_survivors_at_level(row: Seq<i32>, lvl: int)
    ensures
        names_at_level(row, lvl) == Seq::new(row.len(), |j: int| j).filter(|j: int| row[j] == lvl).map_values(
            |j: int| name_of(survivor_at(j)) + ", "@,
        ).flatten(),
{
    let p = |j: int| row[j] == lvl;
    let f = |j: int| name_of(survivor_at(j)) + ", "@;
    lemma_names_prefix(row, lvl, row.len());
    assert(row.take(row.len() as int) =~= row);
    assert(Seq::new(row.len(), |j: int| j) =~= Seq::new(row.len(), |j: int| j + 0));
    Seq::new(row.len(), |j: int| j).filter(p).map_values(f).lemma_flatten_and_flatten_alt_are_equivalent();
}

proof fn lemma_names_prefix(row: Seq<i32>, lvl: int, n: nat)
    requires
        n <= row.len(),
    ensures
        names_at_level(row.take(n as int), lvl) == Seq::new(n, |j: int| j + 0).filter(
            |j: int| row[j] == lvl,
        ).map_values(|j: int| name_of(survivor_at(j)) + ", "@).flatten_alt(),
    decreases n,
{
    let p = |j: int| row[j] == lvl;
    let f = |j: int| name_of(survivor_at(j)) + ", "@;
    if n == 0 {
        reveal(Seq::filter);
        assert(Seq::new(0, |j: int| j + 0).filter(p) =~= Seq::<int>::empty());
        assert(Seq::new(0, |j: int| j + 0).filter(p).map_values(f) =~= Seq::<Seq<char>>::empty());
    } else {
        let m = (n - 1) as nat;
        lemma_names_prefix(row, lvl, m);
        lemma_joined_step(m, 0, p, f);
        assert(row.take(n as int).take(m as int) =~= row.take(m as int));
        assert(row.take(n as int)[m as int] == row[m as int]);
    }
}

/// Under level `lvl`, the lines are exactly those of the first `n` players
/// who have a survivor at `lvl`, in order: indented, the player's name, and
/// the survivors at that level.
pub proof fn lemma_lines_are_players_at_level(
    users: Seq<String>,
    rows: Seq<[i32; NUM_SURVIVORS]>,
    lvl: int,
    n: nat,
)
    ensures
        level_lines(users, rows, lvl, n as int) == Seq::new(n, |u: int| u).filter(
            |u: int| exists|j: int| 0 <= j < NUM_SURVIVORS && rows[u]@[j] == lvl,
        ).map_values(|u: int| "    "@ + users[u]@ + ": "@ + names_at_level(rows[u]@, lvl) + "\n"@).flatten(),
{
    let p = |u: int| exists|j: int| 0 <= j < NUM_SURVIVORS && rows[u]@[j] == lvl;
    let f = |u: int| "    "@ + users[u]@ + ": "@ + names_at_level(rows[u]@, lvl) + "\n"@;
    lemma_lines_prefix(users, rows, lvl, n);
    assert(Seq::new(n, |u: int| u) =~= Seq::new(n, |u: int| u + 0));
    Seq::new(n, |u: int| u).filter(p).map_values(f).lemma_flatten_and_flatten_alt_are_equivalent();
}

proof fn lemma_lines_prefix(users: Seq<String>, rows: Seq<[i32; NUM_SURVIVORS]>, lvl: int, n: nat)
    ensures
        level_lines(users, rows, lvl, n as int) == Seq::new(n, |u: int| u + 0).filter(
            |u: int| exists|j: int| 0 <= j < NUM_SURVIVORS && rows[u]@[j] == lvl,
        ).map_values(|u: int| "    "@ + users[u]@ + ": "@ + names_at_level(rows[u]@, lvl) + "\n"@).flatten_alt(),
    decreases n,
{
    let p = |u: int| exists|j: int| 0 <= j < NUM_SURVIVORS && rows[u]@[j] == lvl;
    let f = |u: int| "    "@ + users[u]@ + ": "@ + names_at_level(rows[u]@, lvl) + "\n"@;
    if n == 0 {
        reveal(Seq::filter);
        assert(Seq::new(0, |u: int| u + 0).filter(p) =~= Seq::<int>::empty());
        assert(Seq::new(0, |u: int| u + 0).filter(p).map_values(f) =~= Seq::<Seq<char>>::empty());
    } else {
        let m = (n - 1) as nat;
        lemma_lines_prefix(users, rows, lvl, m);
        lemma_joined_step(m, 0, p, f);
        let row = rows[m as int]@;
        assert(has_level(row, lvl) == p(m as int)) by {
            assert(row.len() == NUM_SURVIVORS);
        }
    }
}

/// The report is exactly, for the levels 1 to 9 in increasing order that
/// some picked player has reached, the heading of the level (`"Eclipse L:"`
/// in decimal, `"Eclipse completed"` for 9), the lines of that level and a
/// blank line.
pub proof fn lemma_report_is_sections_of_reached_levels(
    users: Seq<String>,
    rows: Seq<[i32; NUM_SURVIVORS]>,
)
    ensures
        eclipse_report(users, rows, 9) == Seq::new(9, |i: int| i + 1).filter(
            |l: int|
                exists|u: int, j: int|
                    0 <= u < users.len() && 0 <= j < NUM_SURVIVORS && rows[u]@[j] == l,
        ).map_values(
            |l: int|
                (if l == 9 {
                    "Eclipse completed\n"@
                } else {
                    "Eclipse "@ + int_text(l) + ":\n"@
                }) + level_lines(users, rows, l, users.len() as int) + "\n"@,
        ).flatten(),
{
    let p = |l: int|
        exists|u: int, j: int| 0 <= u < users.len() && 0 <= j < NUM_SURVIVORS && rows[u]@[j] == l;
    let f = |l: int|
        (if l == 9 {
            "Eclipse completed\n"@
        } else {
            "Eclipse "@ + int_text(l) + ":\n"@
        }) + level_lines(users, rows, l, users.len() as int) + "\n"@;
    lemma_report_prefix(users, rows, 9);
    Seq::new(9, |i: int| i + 1).filter(p).map_values(f).lemma_flatten_and_flatten_alt_are_equivalent();
}

proof fn lemma_report_prefix(users: Seq<String>, rows: Seq<[i32; NUM_SURVIVORS]>, n: nat)
    ensures
        eclipse_report(users, rows, n as int) == Seq::new(n, |i: int| i + 1).filter(
            |l: int|
                exists|u: int, j: int|
                    0 <= u < users.len() && 0 <= j < NUM_SURVIVORS && rows[u]@[j] == l,
        ).map_values(
            |l: int|
                (if l == 9 {
                    "Eclipse completed\n"@
                } else {
                    "Eclipse "@ + int_text(l) + ":\n"@
                }) + level_lines(users, rows, l, users.len() as int) + "\n"@,
        ).flatten_alt(),
    decreases n,
{
    let p = |l: int|
        exists|u: int, j: int| 0 <= u < users.len() && 0 <= j < NUM_SURVIVORS && rows[u]@[j] == l;
    let f = |l: int|
        (if l == 9 {
            "Eclipse completed\n"@
        } else {
            "Eclipse "@ + int_text(l) + ":\n"@
        }) + level_lines(users, rows, l, users.len() as int) + "\n"@;
    if n == 0 {
        reveal(Seq::filter);
        assert(Seq::new(0, |i: int| i + 1).filter(p) =~= Seq::<int>::empty());
        assert(Seq::new(0, |i: int| i + 1).filter(p).map_values(f) =~= Seq::<Seq<char>>::empty());
    } else {
        let m = (n - 1) as nat;
        lemma_report_prefix(users, rows, m);
        lemma_joined_step(m, 1, p, f);
        let lvl = n as int;
        assert(level_reached(users, rows, lvl) == p(lvl)) by {
            if level_reached(users, rows, lvl) {
                let u = choose|u: int| 0 <= u < users.len() && has_level(#[trigger] rows[u]@, lvl);
                let j = choose|j: int| 0 <= j < rows[u]@.len() && rows[u]@[j] == lvl;
                assert(rows[u]@.len() == NUM_SURVIVORS);
                assert(0 <= u < users.len() && 0 <= j < NUM_SURVIVORS && rows[u]@[j] == lvl);
            }
            if p(lvl) {
                let (u, j) = choose|u: int, j: int|
                    0 <= u < users.len() && 0 <= j < NUM_SURVIVORS && rows[u]@[j] == lvl;
                assert(has_level(rows[u]@, lvl));
            }
        }
        assert(level_section(users, rows, lvl) == if p(lvl) {
            f(lvl)
        } else {
            Seq::empty()
        });
    }
}

} // verus!
