//! Dashboard records and the dashboard renderer: one column per world, one
//! row per expansion, summarising every train at once.
use vstd::prelude::*;
use crate::model::{Expac, Status, World};
use crate::text::{append_timestamp, timestamp_markup};
use crate::train::{forced_at, Train, FORCE_WINDOW_SECS};

verus! {

/// A dashboard: a message in a channel that summarises all trains.
pub struct Model {
    /// Store-assigned row id; `0` until the record is first inserted.
    pub id: i64,
    pub message_id: u64,
    pub channel_id: u64,
}

/// One named column of a dashboard embed.
pub struct Field {
    pub name: String,
    pub value: String,
    pub inline: bool,
}

/// The full content of a dashboard message.
pub struct DashboardContent {
    /// Plain message text above the embed.
    pub content: String,
    pub title: String,
    pub fields: Vec<Field>,
}

/// Expansions from the most recent to the oldest.
pub open spec fn expac_by_desc(i: nat) -> Expac {
    if i == 0 {
        Expac::EW
    } else if i == 1 {
        Expac::ShB
    } else if i == 2 {
        Expac::StB
    } else if i == 3 {
        Expac::HW
    } else {
        Expac::ARR
    }
}

/// The worlds a dashboard may show, in ascending name order.
pub open spec fn world_by_name(i: nat) -> World {
    if i == 0 {
        World::Halicarnassus
    } else if i == 1 {
        World::Maduin
    } else if i == 2 {
        World::Marilith
    } else {
        World::Seraph
    }
}

/// Whether a train appears on dashboards (the sentinel world never does).
pub open spec fn shown(t: Train) -> bool {
    t.world != World::Testing
}

pub open spec fn has_expac(trains: Seq<Train>, e: Expac) -> bool {
    exists|i: int| 0 <= i < trains.len() && shown(trains[i]) && #[trigger] trains[i].expac == e
}

pub open spec fn has_world(trains: Seq<Train>, w: World) -> bool {
    exists|i: int| 0 <= i < trains.len() && shown(trains[i]) && #[trigger] trains[i].world == w
}

/// Among the first `k` expansions in descending order, those some shown
/// train has.
pub open spec fn expac_rows_upto(trains: Seq<Train>, k: nat) -> Seq<Expac>
    decreases k,
{
    if k == 0 {
        Seq::empty()
    } else {
        let prev = expac_rows_upto(trains, (k - 1) as nat);
        if has_expac(trains, expac_by_desc((k - 1) as nat)) {
            prev.push(expac_by_desc((k - 1) as nat))
        } else {
            prev
        }
    }
}

/// The dashboard's rows: the expansions of the shown trains, most recent first.
pub open spec fn expac_rows(trains: Seq<Train>) -> Seq<Expac> {
    expac_rows_upto(trains, 5)
}

pub open spec fn world_cols_upto(trains: Seq<Train>, k: nat) -> Seq<World>
    decreases k,
{
    if k == 0 {
        Seq::empty()
    } else {
        let prev = world_cols_upto(trains, (k - 1) as nat);
        if has_world(trains, world_by_name((k - 1) as nat)) {
            prev.push(world_by_name((k - 1) as nat))
        } else {
            prev
        }
    }
}

/// The dashboard's columns: the worlds of the shown trains, by name.
pub open spec fn world_cols(trains: Seq<Train>) -> Seq<World> {
    world_cols_upto(trains, 4)
}

/// The index of the last of the first `n` trains at (`w`, `e`).
pub open spec fn last_match_upto(trains: Seq<Train>, w: World, e: Expac, n: nat) -> Option<nat>
    decreases n,
{
    if n == 0 {
        None
    } else if trains[n - 1].world == w && trains[n - 1].expac == e {
        Some((n - 1) as nat)
    } else {
        last_match_upto(trains, w, e, (n - 1) as nat)
    }
}

/// The train a dashboard shows at (`w`, `e`): the last one listed.
pub open spec fn last_match(trains: Seq<Train>, w: World, e: Expac) -> Option<nat> {
    last_match_upto(trains, w, e, trains.len())
}

/// The label of a dashboard cell for a train that has a record.
pub open spec fn cell_label(t: Train) -> Seq<char> {
    match t.status {
        Status::Scouted => match t.scout_map {
            Some(url) => "[Scouted]("@ + url@ + ")"@,
            None => "Scouted"@,
        },
        Status::Waiting => match t.last_run {
            Some(at) => timestamp_markup(forced_at(at as int), "R"@),
            None => "Waiting"@,
        },
        Status::Running => "**Running**"@,
        Status::Unknown => "Unknown"@,
    }
}

/// One line of a dashboard column.
pub open spec fn cell_line(trains: Seq<Train>, w: World, e: Expac) -> Seq<char> {
    match last_match(trains, w, e) {
        Some(i) => trains[i as int].status.spec_emoji() + " "@ + cell_label(trains[i as int])
            + "\n"@,
        None => Status::Unknown.spec_emoji() + " "@ + "Unknown"@ + "\n"@,
    }
}

/// The text of world `w`'s column over `rows`.
pub open spec fn column_text(rows: Seq<Expac>, trains: Seq<Train>, w: World) -> Seq<char>
    decreases rows.len(),
{
    if rows.len() == 0 {
        Seq::empty()
    } else {
        column_text(rows.drop_last(), trains, w) + cell_line(trains, w, rows.last())
    }
}

/// The expansion names of `rows`, separated by `__\n__`.
pub open spec fn expac_list(rows: Seq<Expac>) -> Seq<char>
    decreases rows.len(),
{
    if rows.len() == 0 {
        Seq::empty()
    } else if rows.len() == 1 {
        rows[0].spec_name()
    } else {
        expac_list(rows.drop_last()) + "__\n__"@ + rows.last().spec_name()
    }
}

/// The first column: the expansion names, each underlined.
pub open spec fn expac_field_text(rows: Seq<Expac>) -> Seq<char> {
    "__"@ + expac_list(rows) + "__"@
}

/// The complete dashboard content for `trains`.
pub open spec fn dashboard_matches(r: DashboardContent, trains: Seq<Train>) -> bool {
    let rows = expac_rows(trains);
    let cols = world_cols(trains);
    &&& r.content@ == "Where a time is present, it indicates force (cap) time."@
    &&& r.title@ == "Train Dashboard"@
    &&& r.fields@.len() == cols.len() + 1
    &&& r.fields@[0].name@ == "Expansion"@
    &&& r.fields@[0].value@ == expac_field_text(rows)
    &&& r.fields@[0].inline
    &&& forall|j: int|
        0 <= j < cols.len() ==> {
            &&& (#[trigger] r.fields@[j + 1]).name@ == cols[j].spec_name()
            &&& r.fields@[j + 1].value@ == column_text(rows, trains, cols[j])
            &&& r.fields@[j + 1].inline
        }
}

proof fn lemma_rows_upto(trains: Seq<Train>, k: nat)
    requires
        k <= 5,
    ensures
        forall|i: int|
            0 <= i < expac_rows_upto(trains, k).len() ==> {
                &&& (#[trigger] expac_rows_upto(trains, k)[i]).spec_rank() + k >= 5
                &&& has_expac(trains, expac_rows_upto(trains, k)[i])
            },
        forall|i: int, j: int|
            0 <= i < j < expac_rows_upto(trains, k).len() ==> expac_rows_upto(trains, k)[i].spec_rank()
                > expac_rows_upto(trains, k)[j].spec_rank(),
        forall|m: nat|
            m < k && has_expac(trains, expac_by_desc(m)) ==> expac_rows_upto(
                trains,
                k,
            ).contains(#[trigger] expac_by_desc(m)),
    decreases k,
{
    if k > 0 {
        let prev = expac_rows_upto(trains, (k - 1) as nat);
        lemma_rows_upto(trains, (k - 1) as nat);
        let e = expac_by_desc((k - 1) as nat);
        if has_expac(trains, e) {
            let cur = prev.push(e);
            assert forall|i: int| 0 <= i < prev.len() implies cur[i] == prev[i] by {}
            assert forall|m: nat|
                m < k && has_expac(trains, expac_by_desc(m)) implies cur.contains(
                #[trigger] expac_by_desc(m),
            ) by {
                if m < k - 1 {
                    let idx = choose|idx: int| 0 <= idx < prev.len() && prev[idx] == expac_by_desc(m);
                    assert(cur[idx] == expac_by_desc(m));
                } else {
                    assert(cur[cur.len() - 1] == expac_by_desc(m));
                }
            }
        }
    }
}

/// The dashboard's rows hold exactly the expansions of its shown trains,
/// the more recent expansion always above the older, whatever order the
/// trains were listed in.
pub proof fn lemma_expac_rows_order(trains: Seq<Train>)
    ensures
        forall|i: int, j: int|
            0 <= i < j < expac_rows(trains).len() ==> expac_rows(trains)[i].spec_rank()
                > expac_rows(trains)[j].spec_rank(),
        forall|e: Expac| #[trigger] expac_rows(trains).contains(e) <==> has_expac(trains, e),
{
    lemma_rows_upto(trains, 5);
    assert forall|e: Expac| has_expac(trains, e) implies #[trigger] expac_rows(trains).contains(e) by {
        let m: nat = (4 - e.spec_rank()) as nat;
        assert(expac_by_desc(m) == e);
    }
}

/// Rendering a dashboard depends on the trains alone: the same trains
/// render to the same content every time.
pub proof fn lemma_dashboard_rendering_deterministic(
    a: DashboardContent,
    b: DashboardContent,
    trains: Seq<Train>,
)
    requires
        dashboard_matches(a, trains),
        dashboard_matches(b, trains),
    ensures
        a.content@ == b.content@,
        a.title@ == b.title@,
        a.fields@.len() == b.fields@.len(),
        forall|j: int|
            0 <= j < a.fields@.len() ==> (#[trigger] a.fields@[j]).name@ == b.fields@[j].name@
                && a.fields@[j].value@ == b.fields@[j].value@ && a.fields@[j].inline
                == b.fields@[j].inline,
{
    assert forall|j: int| 0 <= j < a.fields@.len() implies (#[trigger] a.fields@[j]).name@
        == b.fields@[j].name@ && a.fields@[j].value@ == b.fields@[j].value@ && a.fields@[j].inline
        == b.fields@[j].inline by {
        if j > 0 {
            let m = j - 1;
            assert(a.fields@[m + 1] == a.fields@[j]);
        }
    }
}

/// No two trains share a (world, expac) pair.
pub open spec fn distinct_keys(trains: Seq<Train>) -> bool {
    forall|i: int, j: int|
        0 <= i < trains.len() && 0 <= j < trains.len() && i != j ==> !(trains[i].world
            == trains[j].world && trains[i].expac == trains[j].expac)
}

proof fn lemma_last_match_upto(trains: Seq<Train>, w: World, e: Expac, n: nat)
    requires
        n <= trains.len(),
    ensures
        last_match_upto(trains, w, e, n) matches Some(i) ==> i < n && trains[i as int].world == w
            && trains[i as int].expac == e,
        last_match_upto(trains, w, e, n) is None ==> forall|j: int|
            0 <= j < n ==> !(trains[j].world == w && trains[j].expac == e),
    decreases n,
{
    if n > 0 {
        lemma_last_match_upto(trains, w, e, (n - 1) as nat);
    }
}

proof fn lemma_cells_agree(a: Seq<Train>, b: Seq<Train>, w: World, e: Expac)
    requires
        a.to_multiset() == b.to_multiset(),
        distinct_keys(a),
        distinct_keys(b),
    ensures
        cell_line(a, w, e) == cell_line(b, w, e),
{
    a.to_multiset_ensures();
    b.to_multiset_ensures();
    lemma_last_match_upto(a, w, e, a.len());
    lemma_last_match_upto(b, w, e, b.len());
    match last_match(a, w, e) {
        Some(i) => {
            let t = a[i as int];
            lemma_member_moves(a, b, t);
            let j = choose|j: int| 0 <= j < b.len() && b[j] == t;
            let k = last_match(b, w, e)->Some_0;
            assert(k == j);
        },
        None => {
            if let Some(k) = last_match(b, w, e) {
                let t = b[k as int];
                lemma_member_moves(b, a, t);
                let j = choose|j: int| 0 <= j < a.len() && a[j] == t;
                assert(!(a[j].world == w && a[j].expac == e));
            }
        },
    }
}

proof fn lemma_member_moves(a: Seq<Train>, b: Seq<Train>, t: Train)
    requires
        a.to_multiset() == b.to_multiset(),
        a.contains(t),
    ensures
        b.contains(t),
{
    a.to_multiset_ensures();
    b.to_multiset_ensures();
    assert(a.to_multiset().count(t) > 0);
    assert(b.to_multiset().count(t) > 0);
}

proof fn lemma_presence_moves(a: Seq<Train>, b: Seq<Train>)
    requires
        a.to_multiset() == b.to_multiset(),
    ensures
        forall|e: Expac| has_expac(a, e) ==> has_expac(b, e),
        forall|w: World| has_world(a, w) ==> has_world(b, w),
{
    assert forall|e: Expac| has_expac(a, e) implies has_expac(b, e) by {
        let i = choose|i: int| 0 <= i < a.len() && shown(a[i]) && #[trigger] a[i].expac == e;
        lemma_member_moves(a, b, a[i]);
        let j = choose|j: int| 0 <= j < b.len() && b[j] == a[i];
        assert(b[j].expac == e);
    }
    assert forall|w: World| has_world(a, w) implies has_world(b, w) by {
        let i = choose|i: int| 0 <= i < a.len() && shown(a[i]) && #[trigger] a[i].world == w;
        lemma_member_moves(a, b, a[i]);
        let j = choose|j: int| 0 <= j < b.len() && b[j] == a[i];
        assert(b[j].world == w);
    }
}

proof fn lemma_same_presence(a: Seq<Train>, b: Seq<Train>)
    requires
        a.to_multiset() == b.to_multiset(),
    ensures
        forall|e: Expac| has_expac(a, e) == has_expac(b, e),
        forall|w: World| has_world(a, w) == has_world(b, w),
{
    lemma_presence_moves(a, b);
    lemma_presence_moves(b, a);
}

proof fn lemma_rows_cols_agree(a: Seq<Train>, b: Seq<Train>, k: nat)
    requires
        forall|e: Expac| has_expac(a, e) == has_expac(b, e),
        forall|w: World| has_world(a, w) == has_world(b, w),
    ensures
        expac_rows_upto(a, k) == expac_rows_upto(b, k),
        world_cols_upto(a, k) == world_cols_upto(b, k),
    decreases k,
{
    if k > 0 {
        lemma_rows_cols_agree(a, b, (k - 1) as nat);
    }
}

proof fn lemma_columns_agree(rows: Seq<Expac>, a: Seq<Train>, b: Seq<Train>, w: World)
    requires
        a.to_multiset() == b.to_multiset(),
        distinct_keys(a),
        distinct_keys(b),
    ensures
        column_text(rows, a, w) == column_text(rows, b, w),
    decreases rows.len(),
{
    if rows.len() > 0 {
        lemma_columns_agree(rows.drop_last(), a, b, w);
        lemma_cells_agree(a, b, w, rows.last());
    }
}

/// The order in which trains are listed does not change a dashboard: when
/// no two trains share a (world, expac) pair, any reordering of them renders
/// to the same content (same rows, same columns, same cells).
pub proof fn lemma_dashboard_order_independent(a: Seq<Train>, b: Seq<Train>, r: DashboardContent)
    requires
        a.to_multiset() == b.to_multiset(),
        distinct_keys(a),
        distinct_keys(b),
        dashboard_matches(r, a),
    ensures
        dashboard_matches(r, b),
        expac_rows(a) == expac_rows(b),
        world_cols(a) == world_cols(b),
{
    lemma_same_presence(a, b);
    lemma_rows_cols_agree(a, b, 5);
    lemma_rows_cols_agree(a, b, 4);
    let rows = expac_rows(a);
    let cols = world_cols(a);
    assert forall|j: int| 0 <= j < cols.len() implies column_text(rows, a, cols[j])
        == column_text(rows, b, cols[j]) by {
        lemma_columns_agree(rows, a, b, cols[j]);
    }
}

fn expac_desc(i: u64) -> (r: Expac)
    ensures
        r == expac_by_desc(i as nat),
{
    match i {
        0 => Expac::EW,
        1 => Expac::ShB,
        2 => Expac::StB,
        3 => Expac::HW,
        _ => Expac::ARR,
    }
}

fn world_name_order(i: u64) -> (r: World)
    ensures
        r == world_by_name(i as nat),
{
    match i {
        0 => World::Halicarnassus,
        1 => World::Maduin,
        2 => World::Marilith,
        _ => World::Seraph,
    }
}

fn any_with_expac(trains: &Vec<Train>, e: Expac) -> (r: bool)
    ensures
        r == has_expac(trains@, e),
{
    let mut i: usize = 0;
    while i < trains.len()
        invariant
            i <= trains.len(),
            forall|j: int| 0 <= j < i ==> !(shown(trains@[j]) && #[trigger] trains@[j].expac == e),
        decreases trains.len() - i,
    {
        if trains[i].world != World::Testing && trains[i].expac == e {
            return true;
        }
        i = i + 1;
    }
    false
}

fn any_with_world(trains: &Vec<Train>, w: World) -> (r: bool)
    ensures
        r == has_world(trains@, w),
{
    let mut i: usize = 0;
    while i < trains.len()
        invariant
            i <= trains.len(),
            forall|j: int| 0 <= j < i ==> !(shown(trains@[j]) && #[trigger] trains@[j].world == w),
        decreases trains.len() - i,
    {
        if trains[i].world != World::Testing && trains[i].world == w {
            return true;
        }
        i = i + 1;
    }
    false
}

fn find_last(trains: &Vec<Train>, w: World, e: Expac) -> (r: Option<usize>)
    ensures
        r matches Some(i) ==> last_match(trains@, w, e) == Some(i as nat) && i < trains@.len(),
        r is None ==> last_match(trains@, w, e) is None,
{
    let mut found: Option<usize> = None;
    let mut i: usize = 0;
    while i < trains.len()
        invariant
            i <= trains.len(),
            found matches Some(k) ==> last_match_upto(trains@, w, e, i as nat) == Some(k as nat)
                && k < i,
            found is None ==> last_match_upto(trains@, w, e, i as nat) is None,
        decreases trains.len() - i,
    {
        if trains[i].world == w && trains[i].expac == e {
            found = Some(i);
        }
        i = i + 1;
    }
    found
}

fn append_cell(col: &mut String, trains: &Vec<Train>, w: World, e: Expac)
    ensures
        final(col)@ == old(col)@ + cell_line(trains@, w, e),
{
    match find_last(trains, w, e) {
        None => {
            col.append(Status::Unknown.emoji());
            col.append(" ");
            col.append("Unknown");
        },
        Some(i) => {
            let t = &trains[i];
            col.append(t.status.emoji());
            col.append(" ");
            match t.status {
                Status::Scouted => match &t.scout_map {
                    Some(url) => {
                        col.append("[Scouted](");
                        col.append(url.as_str());
                        col.append(")");
                    },
                    None => col.append("Scouted"),
                },
                Status::Waiting => match t.last_run {
                    Some(at) => append_timestamp(
                        col,
                        at as i128 + FORCE_WINDOW_SECS as i128,
                        "R",
                    ),
                    None => col.append("Waiting"),
                },
                Status::Running => col.append("**Running**"),
                Status::Unknown => col.append("Unknown"),
            }
        },
    }
    col.append("\n");
    assert(final(col)@ =~= old(col)@ + cell_line(trains@, w, e));
}

fn render_column(rows: &Vec<Expac>, trains: &Vec<Train>, w: World) -> (r: String)
    ensures
        r@ == column_text(rows@, trains@, w),
{
    let mut col = String::new();
    let mut k: usize = 0;
    while k < rows.len()
        invariant
            k <= rows.len(),
            col@ == column_text(rows@.take(k as int), trains@, w),
        decreases rows.len() - k,
    {
        append_cell(&mut col, trains, w, rows[k]);
        assert(rows@.take(k + 1).drop_last() =~= rows@.take(k as int));
        k = k + 1;
    }
    assert(rows@.take(rows.len() as int) =~= rows@);
    col
}

fn render_expac_field(rows: &Vec<Expac>) -> (r: String)
    ensures
        r@ == expac_field_text(rows@),
{
    let mut list = String::new();
    let mut k: usize = 0;
    while k < rows.len()
        invariant
            k <= rows.len(),
            list@ == expac_list(rows@.take(k as int)),
        decreases rows.len() - k,
    {
        if k > 0 {
            list.append("__\n__");
        }
        list.append(rows[k].name());
        assert(rows@.take(k + 1).drop_last() =~= rows@.take(k as int));
        assert(list@ =~= expac_list(rows@.take(k + 1)));
        k = k + 1;
    }
    assert(rows@.take(rows.len() as int) =~= rows@);
    let mut field = String::from_str("__");
    field.append(list.as_str());
    field.append("__");
    field
}

/// Renders the dashboard for `trains`. Trains of the sentinel world are left
/// out; a (world, expansion) pair without a train shows as unknown.
pub fn render_dashboard(trains: &Vec<Train>) -> (r: DashboardContent)
    ensures
        dashboard_matches(r, trains@),
{
    let mut rows: Vec<Expac> = Vec::new();
    let mut i: u64 = 0;
    while i < 5
        invariant
            i <= 5,
            rows@ == expac_rows_upto(trains@, i as nat),
        decreases 5 - i,
    {
        let e = expac_desc(i);
        if any_with_expac(trains, e) {
            rows.push(e);
        }
        i = i + 1;
    }
    let mut cols: Vec<World> = Vec::new();
    let mut i: u64 = 0;
    while i < 4
        invariant
            i <= 4,
            cols@ == world_cols_upto(trains@, i as nat),
        decreases 4 - i,
    {
        let w = world_name_order(i);
        if any_with_world(trains, w) {
            cols.push(w);
        }
        i = i + 1;
    }

    let mut fields: Vec<Field> = Vec::new();
    fields.push(
        Field {
            name: String::from_str("Expansion"),
            value: render_expac_field(&rows),
            inline: true,
        },
    );
    let mut j: usize = 0;
    while j < cols.len()
        invariant
            j <= cols.len(),
            rows@ == expac_rows(trains@),
            cols@ == world_cols(trains@),
            fields@.len() == j + 1,
            fields@[0].name@ == "Expansion"@,
            fields@[0].value@ == expac_field_text(rows@),
            fields@[0].inline,
            forall|m: int|
                0 <= m < j ==> {
                    &&& (#[trigger] fields@[m + 1]).name@ == cols@[m].spec_name()
                    &&& fields@[m + 1].value@ == column_text(rows@, trains@, cols@[m])
                    &&& fields@[m + 1].inline
                },
        decreases cols.len() - j,
    {
        let w = cols[j];
        fields.push(
            Field {
                name: String::from_str(w.name()),
                value: render_column(&rows, trains, w),
                inline: true,
            },
        );
        j = j + 1;
    }
    DashboardContent {
        content: String::from_str("Where a time is present, it indicates force (cap) time."),
        title: String::from_str("Train Dashboard"),
        fields,
    }
}

} // verus!
