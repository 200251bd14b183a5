use starbot::dashboard::render_dashboard;
use starbot::model::{Expac, Status, World};
use starbot::text::decimal_text;
use starbot::train::Train;

fn train(world: World, expac: Expac, status: Status) -> Train {
    let mut t = Train::new(world, expac);
    t.status = status;
    t
}

#[test]
fn decimal_text_values() {
    assert_eq!(decimal_text(0), "0");
    assert_eq!(decimal_text(7), "7");
    assert_eq!(decimal_text(1_700_000_000), "1700000000");
    assert_eq!(decimal_text(-42), "-42");
    assert_eq!(decimal_text(i64::MAX), "9223372036854775807");
    assert_eq!(decimal_text(i64::MIN), "-9223372036854775808");
}

#[test]
fn monitor_embed_waiting_shows_forced_time() {
    let mut t = Train::new(World::Maduin, Expac::EW);
    t.done(1_700_000_000);
    let e = t.format_embed();
    assert_eq!(e.title, "Maduin Endwalker Train");
    assert_eq!(
        e.description,
        "\u{1F551} Waiting\nLast run completed at: <t:1700000000:f>\nForced <t:1700021600:R>"
    );
}

#[test]
fn monitor_embed_unknown_is_status_only() {
    let t = Train::new(World::Seraph, Expac::ARR);
    let e = t.format_embed();
    assert_eq!(e.title, "Seraph A Realm Reborn Train");
    assert_eq!(e.description, "\u{2753} Unknown");
    assert!(t.format_components().is_empty());
}

#[test]
fn monitor_embed_running_with_completion_has_no_forced_line() {
    let mut t = Train::new(World::Marilith, Expac::HW);
    t.status = Status::Running;
    t.last_run = Some(60);
    let e = t.format_embed();
    assert_eq!(
        e.description,
        "\u{27A1}\u{FE0F} Running\nLast run completed at: <t:60:f>"
    );
}

#[test]
fn monitor_components_link_to_map() {
    let mut t = Train::new(World::Marilith, Expac::StB);
    t.scout(Some("https://example.com/map".to_string()));
    let b = t.format_components();
    assert_eq!(b.len(), 1);
    assert_eq!(b[0].label, "Scouted Map");
    assert_eq!(b[0].url, "https://example.com/map");
}

#[test]
fn rendering_twice_gives_same_content() {
    let mut t = Train::new(World::Maduin, Expac::ShB);
    t.done(1000);
    let a = t.format_embed();
    let b = t.format_embed();
    assert_eq!(a.title, b.title);
    assert_eq!(a.description, b.description);
    assert_eq!(t.status, Status::Waiting);
    let trains = vec![t];
    let d1 = render_dashboard(&trains);
    let d2 = render_dashboard(&trains);
    assert_eq!(d1.fields.len(), d2.fields.len());
    for (x, y) in d1.fields.iter().zip(d2.fields.iter()) {
        assert_eq!(x.name, y.name);
        assert_eq!(x.value, y.value);
    }
}

fn dashboard_columns(trains: &Vec<Train>) -> Vec<(String, String)> {
    let d = render_dashboard(trains);
    assert_eq!(d.title, "Train Dashboard");
    assert_eq!(d.content, "Where a time is present, it indicates force (cap) time.");
    d.fields.into_iter().map(|f| {
        assert!(f.inline);
        (f.name, f.value)
    }).collect()
}

#[test]
fn dashboard_two_trains_scenario() {
    let t = 1_700_000_000i64;
    let mut a = train(World::Halicarnassus, Expac::HW, Status::Unknown);
    a.done(t);
    let b = train(World::Seraph, Expac::EW, Status::Unknown);
    let expected = vec![
        ("Expansion".to_string(), "__Endwalker__\n__Heavensward__".to_string()),
        (
            "Halicarnassus".to_string(),
            "\u{2753} Unknown\n\u{1F551} <t:1700021600:R>\n".to_string(),
        ),
        (
            "Seraph".to_string(),
            "\u{2753} Unknown\n\u{2753} Unknown\n".to_string(),
        ),
    ];
    let mut a2 = train(World::Halicarnassus, Expac::HW, Status::Unknown);
    a2.done(t);
    let b2 = train(World::Seraph, Expac::EW, Status::Unknown);
    assert_eq!(dashboard_columns(&vec![a, b]), expected);
    assert_eq!(dashboard_columns(&vec![b2, a2]), expected);
}

#[test]
fn dashboard_cell_labels() {
    let mut scouted = train(World::Maduin, Expac::EW, Status::Unknown);
    scouted.scout(Some("https://example.com/m".to_string()));
    let plain_scouted = train(World::Maduin, Expac::ShB, Status::Scouted);
    let running = train(World::Maduin, Expac::StB, Status::Running);
    let waiting = train(World::Maduin, Expac::HW, Status::Waiting);
    let cols = dashboard_columns(&vec![scouted, plain_scouted, running, waiting]);
    assert_eq!(cols.len(), 2);
    assert_eq!(
        cols[0].1,
        "__Endwalker__\n__Shadowbringers__\n__Stormblood__\n__Heavensward__"
    );
    assert_eq!(cols[1].0, "Maduin");
    assert_eq!(
        cols[1].1,
        "\u{2611}\u{FE0F} [Scouted](https://example.com/m)\n\u{2611}\u{FE0F} Scouted\n\u{27A1}\u{FE0F} **Running**\n\u{1F551} Waiting\n"
    );
}

#[test]
fn dashboard_leaves_out_testing_world() {
    let t = train(World::Testing, Expac::ARR, Status::Running);
    let cols = dashboard_columns(&vec![t]);
    assert_eq!(cols, vec![("Expansion".to_string(), "____".to_string())]);
}

#[test]
fn dashboard_orders_worlds_by_name() {
    let trains = vec![
        train(World::Seraph, Expac::ARR, Status::Running),
        train(World::Marilith, Expac::ARR, Status::Running),
        train(World::Halicarnassus, Expac::ARR, Status::Running),
    ];
    let names: Vec<String> = dashboard_columns(&trains).into_iter().map(|c| c.0).collect();
    assert_eq!(names, vec!["Expansion", "Halicarnassus", "Marilith", "Seraph"]);
}

#[test]
fn dashboard_shows_last_listed_train_for_a_key() {
    let first = train(World::Maduin, Expac::EW, Status::Running);
    let second = train(World::Maduin, Expac::EW, Status::Unknown);
    let cols = dashboard_columns(&vec![first, second]);
    assert_eq!(cols[1].1, "\u{2753} Unknown\n");
}
