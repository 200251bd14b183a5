//! The closed vocabularies of the domain: locations (worlds), categories
//! (expansions) and train statuses, each with one mapping to its storage
//! representation and an independent one to its user-facing name.
use vstd::prelude::*;

verus! {

/// The code of `c` with ASCII upper-case letters lowered.
pub open spec fn ascii_lower_code(c: char) -> u32 {
    if 'A' <= c <= 'Z' {
        (c as u32 + 32) as u32
    } else {
        c as u32
    }
}

/// `s` with ASCII case folded away, as character codes.
pub open spec fn ascii_fold(s: Seq<char>) -> Seq<u32> {
    s.map_values(|c: char| ascii_lower_code(c))
}

fn lower_code(c: char) -> (r: u32)
    ensures
        r == ascii_lower_code(c),
{
    if 'A' <= c && c <= 'Z' {
        c as u32 + 32
    } else {
        c as u32
    }
}

/// Whether `a` and `b` are equal but for ASCII case.
pub fn eq_ignore_ascii_case(a: &str, b: &str) -> (r: bool)
    ensures
        r == (ascii_fold(a@) == ascii_fold(b@)),
{
    let n = a.unicode_len();
    if n != b.unicode_len() {
        assert(ascii_fold(a@).len() != ascii_fold(b@).len());
        return false;
    }
    let mut i: usize = 0;
    while i < n
        invariant
            n == a@.len(),
            n == b@.len(),
            i <= n,
            forall|j: int| 0 <= j < i ==> ascii_lower_code(a@[j]) == ascii_lower_code(b@[j]),
        decreases n - i,
    {
        if lower_code(a.get_char(i)) != lower_code(b.get_char(i)) {
            assert(ascii_fold(a@)[i as int] != ascii_fold(b@)[i as int]);
            return false;
        }
        i = i + 1;
    }
    assert(ascii_fold(a@) =~= ascii_fold(b@));
    true
}

/// A world server: the location half of a train's identity.
#[derive(Clone, Copy, PartialEq, Eq, Structural, Debug, Hash)]
pub enum World {
    Halicarnassus,
    Maduin,
    Marilith,
    Seraph,
    /// Sentinel location used for testing; never shown on dashboards.
    Testing,
}

/// Number of worlds offered as choices.
pub const WORLD_COUNT: u64 = 5;

impl World {
    /// The world's user-facing name.
    pub open spec fn spec_name(self) -> Seq<char> {
        match self {
            World::Halicarnassus => "Halicarnassus"@,
            World::Maduin => "Maduin"@,
            World::Marilith => "Marilith"@,
            World::Seraph => "Seraph"@,
            World::Testing => "Testing"@,
        }
    }

    /// Position in the choice list (also ascending name order).
    pub open spec fn spec_index(self) -> nat {
        match self {
            World::Halicarnassus => 0,
            World::Maduin => 1,
            World::Marilith => 2,
            World::Seraph => 3,
            World::Testing => 4,
        }
    }

    pub fn name(&self) -> (r: &'static str)
        ensures
            r@ == self.spec_name(),
    {
        match self {
            World::Halicarnassus => "Halicarnassus",
            World::Maduin => "Maduin",
            World::Marilith => "Marilith",
            World::Seraph => "Seraph",
            World::Testing => "Testing",
        }
    }

    /// The name under which the world is stored.
    pub open spec fn spec_storage_key(self) -> Seq<char> {
        match self {
            World::Halicarnassus => "Halicarnassus"@,
            World::Maduin => "Maduin"@,
            World::Marilith => "Marilith"@,
            World::Seraph => "Seraph"@,
            World::Testing => "Testing"@,
        }
    }

    pub fn storage_key(&self) -> (r: &'static str)
        ensures
            r@ == self.spec_storage_key(),
    {
        match self {
            World::Halicarnassus => "Halicarnassus",
            World::Maduin => "Maduin",
            World::Marilith => "Marilith",
            World::Seraph => "Seraph",
            World::Testing => "Testing",
        }
    }

    /// The world stored under `key`, if any. Stored names are read without
    /// regard to ASCII case.
    pub fn from_storage(key: &String) -> (r: Option<World>)
        ensures
            r matches Some(w) ==> ascii_fold(w.spec_storage_key()) == ascii_fold(key@),
            r is None ==> forall|w: World| ascii_fold(w.spec_storage_key()) != ascii_fold(key@),
    {
        let mut i: u64 = 0;
        while i < WORLD_COUNT
            invariant
                i <= WORLD_COUNT,
                forall|w: World|
                    w.spec_index() < i ==> ascii_fold(w.spec_storage_key()) != ascii_fold(key@),
            decreases WORLD_COUNT - i,
        {
            let w = World::from_choice(i).unwrap();
            if eq_ignore_ascii_case(w.storage_key(), key.as_str()) {
                return Some(w);
            }
            i = i + 1;
        }
        None
    }

    /// The world at position `index` of the choice list.
    pub fn from_choice(index: u64) -> (r: Option<World>)
        ensures
            r is Some <==> index < WORLD_COUNT,
            r matches Some(w) ==> w.spec_index() == index,
    {
        match index {
            0 => Some(World::Halicarnassus),
            1 => Some(World::Maduin),
            2 => Some(World::Marilith),
            3 => Some(World::Seraph),
            4 => Some(World::Testing),
            _ => None,
        }
    }
}

/// A game expansion: the category half of a train's identity.
#[derive(Clone, Copy, PartialEq, Eq, Structural, Debug, Hash)]
pub enum Expac {
    ARR,
    HW,
    StB,
    ShB,
    EW,
}

/// Number of expansions offered as choices.
pub const EXPAC_COUNT: u64 = 5;

impl Expac {
    /// The expansion's user-facing name.
    pub open spec fn spec_name(self) -> Seq<char> {
        match self {
            Expac::ARR => "A Realm Reborn"@,
            Expac::HW => "Heavensward"@,
            Expac::StB => "Stormblood"@,
            Expac::ShB => "Shadowbringers"@,
            Expac::EW => "Endwalker"@,
        }
    }

    /// Release order: the higher the rank, the more recent the expansion.
    /// It is also the position in the choice list.
    pub open spec fn spec_rank(self) -> nat {
        match self {
            Expac::ARR => 0,
            Expac::HW => 1,
            Expac::StB => 2,
            Expac::ShB => 3,
            Expac::EW => 4,
        }
    }

    /// The integer under which the expansion is stored.
    pub open spec fn spec_storage_value(self) -> i8 {
        match self {
            Expac::ARR => 2,
            Expac::HW => 3,
            Expac::StB => 4,
            Expac::ShB => 5,
            Expac::EW => 6,
        }
    }

    pub fn name(&self) -> (r: &'static str)
        ensures
            r@ == self.spec_name(),
    {
        match self {
            Expac::ARR => "A Realm Reborn",
            Expac::HW => "Heavensward",
            Expac::StB => "Stormblood",
            Expac::ShB => "Shadowbringers",
            Expac::EW => "Endwalker",
        }
    }

    pub fn storage_value(&self) -> (r: i8)
        ensures
            r == self.spec_storage_value(),
    {
        match self {
            Expac::ARR => 2,
            Expac::HW => 3,
            Expac::StB => 4,
            Expac::ShB => 5,
            Expac::EW => 6,
        }
    }

    /// The expansion stored as `v`, if any.
    pub fn from_storage(v: i8) -> (r: Option<Expac>)
        ensures
            r matches Some(e) ==> e.spec_storage_value() == v,
            r is None <==> !(2 <= v <= 6),
    {
        match v {
            2 => Some(Expac::ARR),
            3 => Some(Expac::HW),
            4 => Some(Expac::StB),
            5 => Some(Expac::ShB),
            6 => Some(Expac::EW),
            _ => None,
        }
    }

    /// The expansion at position `index` of the choice list.
    pub fn from_choice(index: u64) -> (r: Option<Expac>)
        ensures
            r is Some <==> index < EXPAC_COUNT,
            r matches Some(e) ==> e.spec_rank() == index,
    {
        match index {
            0 => Some(Expac::ARR),
            1 => Some(Expac::HW),
            2 => Some(Expac::StB),
            3 => Some(Expac::ShB),
            4 => Some(Expac::EW),
            _ => None,
        }
    }
}

/// The state of a train.
#[derive(Clone, Copy, PartialEq, Eq, Structural, Debug, Hash)]
pub enum Status {
    Unknown,
    Waiting,
    Scouted,
    Running,
}

impl Status {
    /// The status's user-facing label.
    pub open spec fn spec_name(self) -> Seq<char> {
        match self {
            Status::Unknown => "Unknown"@,
            Status::Waiting => "Waiting"@,
            Status::Scouted => "Scouted"@,
            Status::Running => "Running"@,
        }
    }

    /// The glyph shown in front of the status.
    pub open spec fn spec_emoji(self) -> Seq<char> {
        match self {
            Status::Unknown => "\u{2753}"@,
            Status::Waiting => "\u{1F551}"@,
            Status::Scouted => "\u{2611}\u{FE0F}"@,
            Status::Running => "\u{27A1}\u{FE0F}"@,
        }
    }

    /// The integer under which the status is stored.
    pub open spec fn spec_storage_value(self) -> i8 {
        match self {
            Status::Unknown => 0,
            Status::Waiting => 1,
            Status::Scouted => 2,
            Status::Running => 3,
        }
    }

    pub fn name(&self) -> (r: &'static str)
        ensures
            r@ == self.spec_name(),
    {
        match self {
            Status::Unknown => "Unknown",
            Status::Waiting => "Waiting",
            Status::Scouted => "Scouted",
            Status::Running => "Running",
        }
    }

    pub fn emoji(&self) -> (r: &'static str)
        ensures
            r@ == self.spec_emoji(),
    {
        match self {
            Status::Unknown => "\u{2753}",
            Status::Waiting => "\u{1F551}",
            Status::Scouted => "\u{2611}\u{FE0F}",
            Status::Running => "\u{27A1}\u{FE0F}",
        }
    }

    pub fn storage_value(&self) -> (r: i8)
        ensures
            r == self.spec_storage_value(),
    {
        match self {
            Status::Unknown => 0,
            Status::Waiting => 1,
            Status::Scouted => 2,
            Status::Running => 3,
        }
    }

    /// The status stored as `v`, if any.
    pub fn from_storage(v: i8) -> (r: Option<Status>)
        ensures
            r matches Some(s) ==> s.spec_storage_value() == v,
            r is None <==> !(0 <= v <= 3),
    {
        match v {
            0 => Some(Status::Unknown),
            1 => Some(Status::Waiting),
            2 => Some(Status::Scouted),
            3 => Some(Status::Running),
            _ => None,
        }
    }
}

} // verus!
