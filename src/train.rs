//! The train record, its state machine, find-or-create, and the monitor
//! renderer that maps one train to message content.
use vstd::prelude::*;
use crate::model::{Expac, Status, World};
use crate::text::{append_timestamp, timestamp_markup};

verus! {

/// Seconds between a train's completion and the moment it is forced.
pub const FORCE_WINDOW_SECS: i64 = 21600;

/// A persisted train, identified by its (world, expac) pair.
pub struct Train {
    /// Store-assigned row id; `0` until the record is first inserted.
    pub id: i64,
    pub world: World,
    pub expac: Expac,
    pub status: Status,
    /// Link to a map of the scouted locations.
    pub scout_map: Option<String>,
    /// Completion time of the last run, in seconds since the Unix epoch.
    pub last_run: Option<i64>,
}

/// The content of a monitor message's embed.
pub struct Embed {
    pub title: String,
    pub description: String,
}

/// A link-style affordance attached to a message.
pub struct LinkButton {
    pub label: String,
    pub url: String,
}

/// What find-or-create decided for a looked-up key.
pub enum Lookup {
    /// The key already has a record: use it.
    Existing(Train),
    /// No record yet: insert this one, in the same transaction as the update.
    Create(Train),
}

/// A fresh record for (`world`, `expac`): status unknown, nothing else known.
pub open spec fn fresh_train(world: World, expac: Expac) -> Train {
    Train { id: 0, world, expac, status: Status::Unknown, scout_map: None, last_run: None }
}

/// A map is held only while the train is scouted, or running on the map it
/// was scouted with. Every operation leaves a train in this shape, so only
/// such trains offer a link to a map.
pub open spec fn map_consistent(t: Train) -> bool {
    t.scout_map is Some ==> (t.status == Status::Scouted || t.status == Status::Running)
}

/// The instant at which a train completed at `at` is forced.
pub open spec fn forced_at(at: int) -> int {
    at + FORCE_WINDOW_SECS
}

pub open spec fn monitor_title(t: Train) -> Seq<char> {
    t.world.spec_name() + " "@ + t.expac.spec_name() + " Train"@
}

pub open spec fn monitor_description(t: Train) -> Seq<char> {
    let head = t.status.spec_emoji() + " "@ + t.status.spec_name();
    match t.last_run {
        None => head,
        Some(at) => {
            let done = head + "\nLast run completed at: "@ + timestamp_markup(at as int, "f"@);
            if t.status == Status::Waiting {
                done + "\nForced "@ + timestamp_markup(forced_at(at as int), "R"@)
            } else {
                done
            }
        },
    }
}

impl Train {
    /// A fresh record for (`world`, `expac`), not yet inserted.
    pub fn new(world: World, expac: Expac) -> (r: Train)
        ensures
            r == fresh_train(world, expac),
            map_consistent(r),
    {
        Train { id: 0, world, expac, status: Status::Unknown, scout_map: None, last_run: None }
    }

    /// Marks the train as scouted, with `scout_map` as its map (none clears it).
    pub fn scout(&mut self, scout_map: Option<String>)
        ensures
            *final(self) == (Train { status: Status::Scouted, scout_map, ..*old(self) }),
            map_consistent(*final(self)),
    {
        self.status = Status::Scouted;
        self.scout_map = scout_map;
    }

    /// Marks the train as running. A supplied map replaces the current one;
    /// without one, a map from an earlier scouting is carried into the run.
    pub fn start(&mut self, scout_map: Option<String>)
        ensures
            *final(self) == (Train {
                status: Status::Running,
                last_run: None,
                scout_map: if scout_map is Some { scout_map } else { old(self).scout_map },
                ..*old(self)
            }),
            map_consistent(*final(self)),
    {
        self.status = Status::Running;
        self.last_run = None;
        if scout_map.is_some() {
            self.scout_map = scout_map;
        }
    }

    /// Marks the train as completed at `at` (seconds since the Unix epoch).
    pub fn done(&mut self, at: i64)
        ensures
            *final(self) == (Train {
                status: Status::Waiting,
                scout_map: None,
                last_run: Some(at),
                ..*old(self)
            }),
            map_consistent(*final(self)),
    {
        self.status = Status::Waiting;
        self.scout_map = None;
        self.last_run = Some(at);
    }

    /// Returns the train to its initial state.
    pub fn reset(&mut self)
        ensures
            *final(self) == (Train {
                status: Status::Unknown,
                scout_map: None,
                last_run: None,
                ..*old(self)
            }),
            map_consistent(*final(self)),
    {
        self.status = Status::Unknown;
        self.scout_map = None;
        self.last_run = None;
    }

    /// The embed of a monitor message showing this train.
    pub fn format_embed(&self) -> (r: Embed)
        ensures
            r.title@ == monitor_title(*self),
            r.description@ == monitor_description(*self),
    {
        let mut title = String::from_str(self.world.name());
        title.append(" ");
        title.append(self.expac.name());
        title.append(" Train");

        let mut description = String::from_str(self.status.emoji());
        description.append(" ");
        description.append(self.status.name());
        if let Some(at) = self.last_run {
            description.append("\nLast run completed at: ");
            append_timestamp(&mut description, at as i128, "f");
            if self.status == Status::Waiting {
                description.append("\nForced ");
                append_timestamp(&mut description, at as i128 + FORCE_WINDOW_SECS as i128, "R");
            }
        }
        Embed { title, description }
    }

    /// The link affordances of a monitor message: one to the map, when the
    /// train has one.
    pub fn format_components(&self) -> (r: Vec<LinkButton>)
        ensures
            self.scout_map is None ==> r@.len() == 0,
            self.scout_map matches Some(url) ==> {
                &&& r@.len() == 1
                &&& r@[0].label@ == "Scouted Map"@
                &&& r@[0].url == url
            },
    {
        let mut buttons: Vec<LinkButton> = Vec::new();
        if let Some(url) = &self.scout_map {
            buttons.push(LinkButton { label: String::from_str("Scouted Map"), url: url.clone() });
        }
        buttons
    }
}

/// The find-or-create decision on the result of looking up (`world`, `expac`).
pub fn find_or_create(found: Option<Train>, world: World, expac: Expac) -> (r: Lookup)
    requires
        found matches Some(t) ==> t.world == world && t.expac == expac,
    ensures
        found matches Some(t) ==> r == Lookup::Existing(t),
        found is None ==> r == Lookup::Create(fresh_train(world, expac)),
{
    match found {
        Some(t) => Lookup::Existing(t),
        None => Lookup::Create(Train::new(world, expac)),
    }
}

/// How many of `rows` are keyed (`w`, `e`).
pub open spec fn key_count(rows: Seq<Train>, w: World, e: Expac) -> nat
    decreases rows.len(),
{
    if rows.len() == 0 {
        0
    } else {
        key_count(rows.drop_last(), w, e) + if rows.last().world == w && rows.last().expac == e {
            1nat
        } else {
            0nat
        }
    }
}

/// At most one row per (world, expac).
pub open spec fn keys_unique(rows: Seq<Train>) -> bool {
    forall|w: World, e: Expac| #[trigger] key_count(rows, w, e) <= 1
}

/// An insert into the train table, whose unique constraint on (world, expac)
/// refuses a second row for a key.
pub open spec fn store_insert(rows: Seq<Train>, t: Train) -> Seq<Train> {
    if key_count(rows, t.world, t.expac) > 0 {
        rows
    } else {
        rows.push(t)
    }
}

/// The table after the inserts of `created`, in order: records that
/// concurrent find-or-create calls decided to create, each having looked
/// the key up before any of them inserted.
pub open spec fn insert_all(rows: Seq<Train>, created: Seq<Train>) -> Seq<Train>
    decreases created.len(),
{
    if created.len() == 0 {
        rows
    } else {
        store_insert(insert_all(rows, created.drop_last()), created.last())
    }
}

proof fn lemma_key_count_push(rows: Seq<Train>, t: Train, w: World, e: Expac)
    ensures
        key_count(rows.push(t), w, e) == key_count(rows, w, e) + if t.world == w && t.expac == e {
            1nat
        } else {
            0nat
        },
{
    assert(rows.push(t).drop_last() =~= rows);
}

/// However concurrent find-or-create calls interleave, the table keeps
/// exactly one record for every key any of them asked for, and never two
/// for any key.
pub proof fn lemma_find_or_create_unique(rows: Seq<Train>, created: Seq<Train>)
    requires
        keys_unique(rows),
    ensures
        keys_unique(insert_all(rows, created)),
        forall|i: int|
            0 <= i < created.len() ==> key_count(
                insert_all(rows, created),
                created[i].world,
                created[i].expac,
            ) == 1,
        forall|w: World, e: Expac|
            key_count(rows, w, e) <= #[trigger] key_count(insert_all(rows, created), w, e),
    decreases created.len(),
{
    if created.len() > 0 {
        let prefix = created.drop_last();
        let before = insert_all(rows, prefix);
        let t = created.last();
        lemma_find_or_create_unique(rows, prefix);
        let after = insert_all(rows, created);
        assert forall|w: World, e: Expac|
            key_count(before, w, e) <= #[trigger] key_count(after, w, e) && key_count(after, w, e)
                <= 1 by {
            if key_count(before, t.world, t.expac) == 0 {
                lemma_key_count_push(before, t, w, e);
            }
            assert(key_count(before, w, e) <= 1);
        }
        assert(key_count(after, t.world, t.expac) == 1) by {
            if key_count(before, t.world, t.expac) == 0 {
                lemma_key_count_push(before, t, t.world, t.expac);
            }
            assert(key_count(before, t.world, t.expac) <= 1);
        }
        assert forall|i: int| 0 <= i < created.len() implies key_count(
            after,
            created[i].world,
            created[i].expac,
        ) == 1 by {
            if i < prefix.len() {
                assert(prefix[i] == created[i]);
                assert(key_count(before, created[i].world, created[i].expac) == 1);
                assert(key_count(after, created[i].world, created[i].expac) <= 1);
            }
        }
    }
}

proof fn lemma_key_count_positive(rows: Seq<Train>, i: int)
    requires
        0 <= i < rows.len(),
    ensures
        key_count(rows, rows[i].world, rows[i].expac) >= 1,
    decreases rows.len(),
{
    if i < rows.len() - 1 {
        lemma_key_count_positive(rows.drop_last(), i);
        assert(rows.drop_last()[i] == rows[i]);
    }
}

proof fn lemma_one_row_per_key(rows: Seq<Train>, i: int, j: int)
    requires
        keys_unique(rows),
        0 <= i < rows.len(),
        0 <= j < rows.len(),
        rows[i].world == rows[j].world,
        rows[i].expac == rows[j].expac,
    ensures
        i == j,
    decreases rows.len(),
{
    let last = rows.len() - 1;
    let w = rows[i].world;
    let e = rows[i].expac;
    let prev = rows.drop_last();
    assert(key_count(prev, w, e) <= key_count(rows, w, e));
    if i < last && j < last {
        assert forall|w2: World, e2: Expac| #[trigger] key_count(prev, w2, e2) <= 1 by {
            assert(key_count(prev, w2, e2) <= key_count(rows, w2, e2));
        }
        assert(prev[i] == rows[i] && prev[j] == rows[j]);
        lemma_one_row_per_key(prev, i, j);
    } else if i < last {
        lemma_key_count_positive(prev, i);
        assert(prev[i] == rows[i]);
    } else if j < last {
        lemma_key_count_positive(prev, j);
        assert(prev[j] == rows[j]);
    }
}

proof fn lemma_insert_all_keeps_rows(rows: Seq<Train>, created: Seq<Train>)
    ensures
        insert_all(rows, created).len() >= rows.len(),
        insert_all(rows, created).subrange(0, rows.len() as int) == rows,
    decreases created.len(),
{
    if created.len() > 0 {
        lemma_insert_all_keeps_rows(rows, created.drop_last());
        let before = insert_all(rows, created.drop_last());
        let after = insert_all(rows, created);
        assert(after.subrange(0, rows.len() as int) =~= before.subrange(0, rows.len() as int));
    }
}

/// Concurrent find-or-create calls that succeed all end up with the same
/// record: a record one of them found stays where it was, the inserts only
/// add rows, and the table has a single row for each key. So any two rows
/// the calls can hold for one key are the same row, with the same id.
pub proof fn lemma_find_or_create_same_record(
    rows: Seq<Train>,
    created: Seq<Train>,
    i: int,
    j: int,
)
    requires
        keys_unique(rows),
        0 <= i < insert_all(rows, created).len(),
        0 <= j < insert_all(rows, created).len(),
        insert_all(rows, created)[i].world == insert_all(rows, created)[j].world,
        insert_all(rows, created)[i].expac == insert_all(rows, created)[j].expac,
    ensures
        i == j,
        insert_all(rows, created)[i].id == insert_all(rows, created)[j].id,
        insert_all(rows, created).subrange(0, rows.len() as int) == rows,
{
    lemma_find_or_create_unique(rows, created);
    lemma_insert_all_keeps_rows(rows, created);
    lemma_one_row_per_key(insert_all(rows, created), i, j);
}

/// Rendering a monitor depends on the train's state alone: the same state
/// renders to the same content every time.
pub proof fn lemma_monitor_rendering_deterministic(a: Train, b: Train)
    requires
        a == b,
    ensures
        monitor_title(a) == monitor_title(b),
        monitor_description(a) == monitor_description(b),
{
}

} // verus!
