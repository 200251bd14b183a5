use starbot::command::{
    check_home_guild, check_map_link, completion_time, dashboard_placeholder, done_message,
    monitor_msg, monitor_placeholder, scout_message, start_message, CommandError, Timestamp,
    TimestampError,
};
use starbot::model::{Expac, World};

#[test]
fn parse_bare_seconds() {
    assert_eq!(Timestamp::parse("1700000000"), Ok(Timestamp(1_700_000_000)));
    assert_eq!(Timestamp::parse("-5"), Ok(Timestamp(-5)));
    assert_eq!(Timestamp::parse("+5"), Ok(Timestamp(5)));
}

#[test]
fn parse_chat_timestamp() {
    assert_eq!(Timestamp::parse("<t:1700000000:f>"), Ok(Timestamp(1_700_000_000)));
    assert_eq!(Timestamp::parse("x:12:y"), Ok(Timestamp(12)));
}

#[test]
fn parse_wrong_colon_count() {
    assert_eq!(Timestamp::parse("<t:1700000000>"), Err(TimestampError::Malformed));
    assert_eq!(Timestamp::parse("a:1:2:3"), Err(TimestampError::Malformed));
}

#[test]
fn parse_not_a_number() {
    assert_eq!(Timestamp::parse("soon"), Err(TimestampError::NotANumber));
    assert_eq!(Timestamp::parse(""), Err(TimestampError::NotANumber));
    assert_eq!(Timestamp::parse("<t::f>"), Err(TimestampError::NotANumber));
    assert_eq!(Timestamp::parse("99999999999999999999"), Err(TimestampError::NotANumber));
}

#[test]
fn parse_out_of_range() {
    assert_eq!(Timestamp::parse("9223372036854775807"), Err(TimestampError::OutOfRange));
    assert_eq!(TimestampError::OutOfRange.message(), "timestamp out of range");
}

#[test]
fn timestamp_markup() {
    assert_eq!(Timestamp(1_700_000_000).to_markup(), "<t:1700000000:f>");
}

#[test]
fn completion_time_choices() {
    assert_eq!(completion_time(Some(Timestamp(100)), None, 9), Ok(100));
    assert_eq!(completion_time(None, Some(Timestamp(30_000)), 9), Ok(8_400));
    assert_eq!(completion_time(None, None, 9), Ok(9));
    assert_eq!(
        completion_time(Some(Timestamp(1)), Some(Timestamp(2)), 9),
        Err(CommandError::BothTimes)
    );
    assert_eq!(
        CommandError::BothTimes.message(),
        "Cannot provide both completion_time and force_time"
    );
}

#[test]
fn map_link_must_be_url() {
    assert_eq!(check_map_link(&None), Ok(()));
    assert_eq!(check_map_link(&Some("https://example.com/map.png".to_string())), Ok(()));
    assert_eq!(
        check_map_link(&Some("not a link".to_string())),
        Err(CommandError::InvalidMapLink)
    );
}

#[test]
fn home_guild_only() {
    assert_eq!(check_home_guild(Some(5), 5), Ok(()));
    assert_eq!(check_home_guild(Some(6), 5), Err(CommandError::NotHomeGuild));
    assert_eq!(check_home_guild(None, 5), Err(CommandError::NotHomeGuild));
    assert_eq!(CommandError::NotHomeGuild.message(), "Not allowed in this guild/in DM");
}

#[test]
fn monitor_msg_texts() {
    assert_eq!(monitor_msg("Done".to_string(), true), "Done.");
    assert_eq!(
        monitor_msg("Done".to_string(), false),
        "Error: Done, but not all monitor posts could be updated."
    );
}

#[test]
fn command_texts() {
    assert_eq!(
        scout_message(World::Maduin, Expac::EW, &Some("https://m".to_string())),
        "Maduin Endwalker Train has been [scouted](https://m)"
    );
    assert_eq!(
        scout_message(World::Maduin, Expac::EW, &None),
        "Maduin Endwalker Train has been scouted"
    );
    assert_eq!(start_message(World::Seraph, Expac::HW), "Seraph Heavensward Train is now running");
    assert_eq!(
        done_message(World::Seraph, Expac::HW, 1_700_000_000),
        "Seraph Heavensward Train completed at <t:1700000000:f>"
    );
    assert_eq!(
        monitor_placeholder(World::Marilith, Expac::StB),
        "Initializing monitor for Marilith Stormblood Train..."
    );
    assert_eq!(dashboard_placeholder(), "Initializing dashboard...");
}

#[test]
fn parse_at_date_time_bounds() {
    assert_eq!(Timestamp::parse("-8334601228800"), Ok(Timestamp(-8_334_601_228_800)));
    assert_eq!(Timestamp::parse("-8334601228801"), Err(TimestampError::OutOfRange));
    assert_eq!(Timestamp::parse("8210266876799"), Ok(Timestamp(8_210_266_876_799)));
    assert_eq!(Timestamp::parse("8210266876800"), Err(TimestampError::OutOfRange));
}
