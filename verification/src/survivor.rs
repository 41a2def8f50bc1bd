//! The roster of survivors, their positions in a stored level array and
//! their display names.
use vstd::prelude::*;

use crate::text::same_text;

verus! {

/// Number of survivors, and so the length of a stored level array.
pub const NUM_SURVIVORS: usize = 13;

/// A playable survivor. The order of the variants is the order of the
/// entries in a stored level array.
#[derive(Clone, Copy, Debug, PartialEq, Eq, Structural)]
pub enum Survivors {
    Acrid,
    Artificer,
    Bandit,
    Captain,
    Commando,
    Engineer,
    Huntress,
    Loader,
    MulT,
    Mercenary,
    Rex,
    Railgunner,
    VoidFiend,
}

/// Position of a survivor in a stored level array.
pub open spec fn index_of(s: Survivors) -> int {
    match s {
        Survivors::Acrid => 0,
        Survivors::Artificer => 1,
        Survivors::Bandit => 2,
        Survivors::Captain => 3,
        Survivors::Commando => 4,
        Survivors::Engineer => 5,
        Survivors::Huntress => 6,
        Survivors::Loader => 7,
        Survivors::MulT => 8,
        Survivors::Mercenary => 9,
        Survivors::Rex => 10,
        Survivors::Railgunner => 11,
        Survivors::VoidFiend => 12,
    }
}

/// The survivor stored at position `i` (meaningful for `0 <= i < NUM_SURVIVORS`).
pub open spec fn survivor_at(i: int) -> Survivors {
    if i == 0 {
        Survivors::Acrid
    } else if i == 1 {
        Survivors::Artificer
    } else if i == 2 {
        Survivors::Bandit
    } else if i == 3 {
        Survivors::Captain
    } else if i == 4 {
        Survivors::Commando
    } else if i == 5 {
        Survivors::Engineer
    } else if i == 6 {
        Survivors::Huntress
    } else if i == 7 {
        Survivors::Loader
    } else if i == 8 {
        Survivors::MulT
    } else if i == 9 {
        Survivors::Mercenary
    } else if i == 10 {
        Survivors::Rex
    } else if i == 11 {
        Survivors::Railgunner
    } else {
        Survivors::VoidFiend
    }
}

/// The display name of a survivor.
pub open spec fn name_of(s: Survivors) -> Seq<char> {
    match s {
        Survivors::Acrid => "Acrid"@,
        Survivors::Artificer => "Artificer"@,
        Survivors::Bandit => "Bandit"@,
        Survivors::Captain => "Captain"@,
        Survivors::Commando => "Commando"@,
        Survivors::Engineer => "Engineer"@,
        Survivors::Huntress => "Huntress"@,
        Survivors::Loader => "Loader"@,
        Survivors::MulT => "MulT"@,
        Survivors::Mercenary => "Mercenary"@,
        Survivors::Rex => "Rex"@,
        Survivors::Railgunner => "Railgunner"@,
        Survivors::VoidFiend => "VoidFiend"@,
    }
}

/// The survivor whose display name is `name`, if there is one.
pub open spec fn survivor_named(name: Seq<char>) -> Option<Survivors> {
    if exists|s: Survivors| name_of(s) == name {
        Some(choose|s: Survivors| name_of(s) == name)
    } else {
        None
    }
}

/// Every survivor has a position below `NUM_SURVIVORS`, and the position
/// leads back to the survivor.
pub proof fn lemma_index_roundtrip(s: Survivors)
    ensures
        0 <= index_of(s) < NUM_SURVIVORS,
        survivor_at(index_of(s)) == s,
{
}

/// Each position below `NUM_SURVIVORS` holds a survivor whose position it is.
pub proof fn lemma_position_roundtrip(i: int)
    requires
        0 <= i < NUM_SURVIVORS,
    ensures
        index_of(survivor_at(i)) == i,
{
}

/// No two survivors share a display name.
pub proof fn lemma_names_distinct(a: Survivors, b: Survivors)
    requires
        a != b,
    ensures
        name_of(a) != name_of(b),
{
    reveal_strlit("Acrid");
    reveal_strlit("Artificer");
    reveal_strlit("Bandit");
    reveal_strlit("Captain");
    reveal_strlit("Commando");
    reveal_strlit("Engineer");
    reveal_strlit("Huntress");
    reveal_strlit("Loader");
    reveal_strlit("MulT");
    reveal_strlit("Mercenary");
    reveal_strlit("Rex");
    reveal_strlit("Railgunner");
    reveal_strlit("VoidFiend");
    assert(name_of(a).len() != name_of(b).len() || name_of(a)[0] != name_of(b)[0]
        || name_of(a)[1] != name_of(b)[1] || name_of(a)[2] != name_of(b)[2]);
}

/// Looking a survivor's display name up gives back that survivor.
pub proof fn lemma_name_roundtrip(s: Survivors)
    ensures
        survivor_named(name_of(s)) == Some(s),
{
    let t = choose|t: Survivors| name_of(t) == name_of(s);
    if t != s {
        lemma_names_distinct(t, s);
    }
}

/// A name that is found is the display name of the survivor found.
pub proof fn lemma_named_has_name(name: Seq<char>, s: Survivors)
    requires
        survivor_named(name) == Some(s),
    ensures
        name_of(s) == name,
{
}

impl Survivors {
    /// The survivor at position `index` of a stored level array.
    pub fn index_to_survivor(index: usize) -> (s: Self)
        requires
            index < NUM_SURVIVORS,
        ensures
            s == survivor_at(index as int),
            index_of(s) == index,
    {
        match index {
            0 => Survivors::Acrid,
            1 => Survivors::Artificer,
            2 => Survivors::Bandit,
            3 => Survivors::Captain,
            4 => Survivors::Commando,
            5 => Survivors::Engineer,
            6 => Survivors::Huntress,
            7 => Survivors::Loader,
            8 => Survivors::MulT,
            9 => Survivors::Mercenary,
            10 => Survivors::Rex,
            11 => Survivors::Railgunner,
            _ => Survivors::VoidFiend,
        }
    }

    /// The position of this survivor in a stored level array.
    pub fn survivor_to_index(&self) -> (i: usize)
        ensures
            i == index_of(*self),
            i < NUM_SURVIVORS,
    {
        match self {
            Survivors::Acrid => 0,
            Survivors::Artificer => 1,
            Survivors::Bandit => 2,
            Survivors::Captain => 3,
            Survivors::Commando => 4,
            Survivors::Engineer => 5,
            Survivors::Huntress => 6,
            Survivors::Loader => 7,
            Survivors::MulT => 8,
            Survivors::Mercenary => 9,
            Survivors::Rex => 10,
            Survivors::Railgunner => 11,
            Survivors::VoidFiend => 12,
        }
    }

    /// The display name of this survivor.
    pub fn survivor_to_name(&self) -> (name: &'static str)
        ensures
            name@ == name_of(*self),
    {
        match self {
            Survivors::Acrid => "Acrid",
            Survivors::Artificer => "Artificer",
            Survivors::Bandit => "Bandit",
            Survivors::Captain => "Captain",
            Survivors::Commando => "Commando",
            Survivors::Engineer => "Engineer",
            Survivors::Huntress => "Huntress",
            Survivors::Loader => "Loader",
            Survivors::MulT => "MulT",
            Survivors::Mercenary => "Mercenary",
            Survivors::Rex => "Rex",
            Survivors::Railgunner => "Railgunner",
            Survivors::VoidFiend => "VoidFiend",
        }
    }

    /// The survivor whose display name is exactly `input`, or `None` when no
    /// survivor has that name.
    pub fn name_to_survivor(input: &str) -> (found: Option<Survivors>)
        ensures
            found == survivor_named(input@),
            found is None <==> forall|s: Survivors| name_of(s) != input@,
    {
        let mut i: usize = 0;
        while i < NUM_SURVIVORS
            invariant
                i <= NUM_SURVIVORS,
                forall|j: int| 0 <= j < i ==> name_of(#[trigger] survivor_at(j)) != input@,
            decreases NUM_SURVIVORS - i,
        {
            let s = Survivors::index_to_survivor(i);
            if same_text(input, s.survivor_to_name()) {
                proof {
                    lemma_name_roundtrip(s);
                }
                return Some(s);
            }
            i = i + 1;
        }
        assert forall|s: Survivors| name_of(s) != input@ by {
            lemma_index_roundtrip(s);
            assert(name_of(survivor_at(index_of(s))) != input@);
        }
        None
    }

    /// The display name of this survivor as an owned string; this is how a
    /// survivor is written in a reply.
    pub fn to_string(&self) -> (text: String)
        ensures
            text@ == name_of(*self),
    {
        self.survivor_to_name().to_owned()
    }
}

} // verus!
