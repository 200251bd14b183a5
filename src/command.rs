//! What the commands decide before and after they touch the store or the
//! channel: argument validation, the completion time, and the texts that
//! acknowledge a command.
use vstd::prelude::*;
use crate::model::{Expac, World};
use crate::text::{append_timestamp, timestamp_markup};
use crate::train::FORCE_WINDOW_SECS;

verus! {

/// Whether `s` parses as an absolute URL. Depends on the text alone.
pub uninterp spec fn url_parses(s: Seq<char>) -> bool;

/// The earliest whole second that has a UTC date-time: -262143-01-01T00:00:00.
pub const MIN_UTC_SECS: i64 = -8334601228800;

/// The latest whole second that has a UTC date-time: 262142-12-31T23:59:59.
pub const MAX_UTC_SECS: i64 = 8210266876799;

/// Whether a UTC date-time exists `secs` seconds after the Unix epoch.
pub open spec fn utc_representable(secs: int) -> bool {
    MIN_UTC_SECS <= secs <= MAX_UTC_SECS
}

/// Relies on `url::Url::parse` (which `str::parse::<Url>` calls): whether it
/// accepts `s`.
#[verifier::external_body]
fn parses_as_url(s: &str) -> (r: bool)
    ensures
        r == url_parses(s@),
{
    url::Url::parse(s).is_ok()
}

/// Relies on `chrono::DateTime::from_timestamp` (which `Utc.timestamp_opt`
/// calls): it gives a date-time for `secs` whole seconds exactly when they
/// fall between its minimum (January 1 of year -262143) and its maximum
/// (December 31 of year 262142) date-times.
#[verifier::external_body]
fn representable_utc(secs: i64) -> (r: bool)
    ensures
        r == utc_representable(secs as int),
{
    chrono::DateTime::from_timestamp(secs, 0).is_some()
}

pub open spec fn is_digit(c: char) -> bool {
    '0' <= c <= '9'
}

pub open spec fn digits_value(s: Seq<char>) -> int
    decreases s.len(),
{
    if s.len() == 0 {
        0
    } else {
        digits_value(s.drop_last()) * 10 + (s.last() as int - '0' as int)
    }
}

pub open spec fn all_digits(s: Seq<char>) -> bool {
    s.len() > 0 && forall|i: int| 0 <= i < s.len() ==> is_digit(#[trigger] s[i])
}

/// An optional sign followed by decimal digits, as a mathematical integer.
pub open spec fn parse_int(s: Seq<char>) -> Option<int> {
    if s.len() > 0 && s[0] == '-' {
        if all_digits(s.drop_first()) { Some(-digits_value(s.drop_first())) } else { None }
    } else if s.len() > 0 && s[0] == '+' {
        if all_digits(s.drop_first()) { Some(digits_value(s.drop_first())) } else { None }
    } else if all_digits(s) {
        Some(digits_value(s))
    } else {
        None
    }
}

/// `parse_int`, when the value fits in an `i64`.
pub open spec fn parse_i64(s: Seq<char>) -> Option<i64> {
    match parse_int(s) {
        Some(v) => if i64::MIN <= v <= i64::MAX { Some(v as i64) } else { None },
        None => None,
    }
}

/// Relies on `str::parse::<i64>`: an optional `+` or `-` then one or more
/// ASCII digits, nothing else, and a value in range.
#[verifier::external_body]
fn parse_seconds(s: &str) -> (r: Option<i64>)
    ensures
        r == parse_i64(s@),
{
    s.parse::<i64>().ok()
}

/// The positions of `:` among the first `n` characters of `s`.
pub open spec fn colon_positions(s: Seq<char>, n: nat) -> Seq<int>
    decreases n,
{
    if n == 0 {
        Seq::empty()
    } else if s[n - 1] == ':' {
        colon_positions(s, (n - 1) as nat).push(n - 1)
    } else {
        colon_positions(s, (n - 1) as nat)
    }
}

proof fn lemma_colon_positions_ordered(s: Seq<char>, n: nat)
    requires
        n <= s.len(),
    ensures
        forall|i: int|
            0 <= i < colon_positions(s, n).len() ==> 0 <= #[trigger] colon_positions(s, n)[i] < n,
        forall|i: int, j: int|
            0 <= i < j < colon_positions(s, n).len() ==> colon_positions(s, n)[i]
                < colon_positions(s, n)[j],
    decreases n,
{
    if n > 0 {
        let prev = colon_positions(s, (n - 1) as nat);
        lemma_colon_positions_ordered(s, (n - 1) as nat);
        if s[n - 1] == ':' {
            let cur = prev.push(n - 1);
            assert(colon_positions(s, n) == cur);
            assert forall|i: int| 0 <= i < cur.len() implies 0 <= #[trigger] cur[i] < n by {
                if i < prev.len() {
                    assert(cur[i] == prev[i]);
                }
            }
            assert forall|i: int, j: int| 0 <= i < j < cur.len() implies cur[i] < cur[j] by {
                assert(cur[i] == prev[i]);
                if j < prev.len() {
                    assert(cur[j] == prev[j]);
                }
            }
        }
    }
}

/// The seconds field of a timestamp argument: the whole text when it has
/// no colon, the part between the colons when it has two (as in
/// `<t:1700000000:f>`), and nothing otherwise.
pub open spec fn seconds_field(s: Seq<char>) -> Option<Seq<char>> {
    let p = colon_positions(s, s.len());
    if p.len() == 0 {
        Some(s)
    } else if p.len() == 2 {
        Some(s.subrange(p[0] + 1, p[1]))
    } else {
        None
    }
}

/// Why a timestamp argument was refused.
#[derive(Clone, Copy, PartialEq, Eq, Structural, Debug)]
pub enum TimestampError {
    /// Neither bare seconds nor a chat timestamp.
    Malformed,
    /// The seconds are not a number that fits in an `i64`.
    NotANumber,
    /// No date-time exists at that many seconds.
    OutOfRange,
}

impl TimestampError {
    pub fn message(&self) -> (r: &'static str)
        ensures
            *self == TimestampError::Malformed ==> r@ == "expected Discord timestamp"@,
            *self == TimestampError::NotANumber ==> r@ == "invalid digit in timestamp"@,
            *self == TimestampError::OutOfRange ==> r@ == "timestamp out of range"@,
    {
        match self {
            TimestampError::Malformed => "expected Discord timestamp",
            TimestampError::NotANumber => "invalid digit in timestamp",
            TimestampError::OutOfRange => "timestamp out of range",
        }
    }
}

/// The meaning of a timestamp argument.
pub open spec fn parse_timestamp(s: Seq<char>) -> Result<i64, TimestampError> {
    match seconds_field(s) {
        None => Err(TimestampError::Malformed),
        Some(f) => match parse_i64(f) {
            None => Err(TimestampError::NotANumber),
            Some(v) => if utc_representable(v as int) {
                Ok(v)
            } else {
                Err(TimestampError::OutOfRange)
            },
        },
    }
}

/// An instant given as a command argument, in whole seconds since the Unix
/// epoch.
#[derive(Clone, Copy, PartialEq, Eq, Structural, Debug)]
pub struct Timestamp(pub i64);

fn colons(s: &str) -> (r: Vec<usize>)
    ensures
        r@.len() == colon_positions(s@, s@.len()).len(),
        forall|i: int| 0 <= i < r@.len() ==> r@[i] as int == colon_positions(s@, s@.len())[i],
{
    let n = s.unicode_len();
    let mut r: Vec<usize> = Vec::new();
    let mut i: usize = 0;
    while i < n
        invariant
            n == s@.len(),
            i <= n,
            r@.len() == colon_positions(s@, i as nat).len(),
            forall|j: int| 0 <= j < r@.len() ==> r@[j] as int == colon_positions(s@, i as nat)[j],
        decreases n - i,
    {
        if s.get_char(i) == ':' {
            r.push(i);
        }
        i = i + 1;
    }
    r
}

impl Timestamp {
    /// Reads a timestamp argument: bare seconds (`1700000000`) or a chat
    /// timestamp (`<t:1700000000:f>`, whatever stands around the colons).
    pub fn parse(s: &str) -> (r: Result<Timestamp, TimestampError>)
        ensures
            r matches Ok(t) ==> parse_timestamp(s@) == Ok::<i64, TimestampError>(t.0),
            r matches Err(e) ==> parse_timestamp(s@) == Err::<i64, TimestampError>(e),
    {
        let p = colons(s);
        proof {
            lemma_colon_positions_ordered(s@, s@.len());
        }
        let field: &str = if p.len() == 0 {
            s
        } else if p.len() == 2 {
            assert(p@[0] as int == colon_positions(s@, s@.len())[0]);
            assert(p@[1] as int == colon_positions(s@, s@.len())[1]);
            s.substring_char(p[0] + 1, p[1])
        } else {
            return Err(TimestampError::Malformed);
        };
        match parse_seconds(field) {
            None => Err(TimestampError::NotANumber),
            Some(v) => if representable_utc(v) {
                Ok(Timestamp(v))
            } else {
                Err(TimestampError::OutOfRange)
            },
        }
    }

    /// The chat markup that shows this instant as a full date and time.
    pub fn to_markup(&self) -> (r: String)
        ensures
            r@ == timestamp_markup(self.0 as int, "f"@),
    {
        let mut out = String::new();
        append_timestamp(&mut out, self.0 as i128, "f");
        out
    }
}

/// Why a command was refused before it changed anything.
#[derive(Clone, Copy, PartialEq, Eq, Structural, Debug)]
pub enum CommandError {
    /// Projections are only created from the home guild.
    NotHomeGuild,
    /// A completion time and a force time were both given.
    BothTimes,
    /// The map link is not a URL.
    InvalidMapLink,
}

impl CommandError {
    pub fn message(&self) -> (r: &'static str)
        ensures
            *self == CommandError::NotHomeGuild ==> r@ == "Not allowed in this guild/in DM"@,
            *self == CommandError::BothTimes ==> r@
                == "Cannot provide both completion_time and force_time"@,
            *self == CommandError::InvalidMapLink ==> r@ == "invalid map link"@,
    {
        match self {
            CommandError::NotHomeGuild => "Not allowed in this guild/in DM",
            CommandError::BothTimes => "Cannot provide both completion_time and force_time",
            CommandError::InvalidMapLink => "invalid map link",
        }
    }
}

/// Creation commands are accepted only from the home guild.
pub fn check_home_guild(guild: Option<u64>, home: u64) -> (r: Result<(), CommandError>)
    ensures
        r is Ok <==> guild == Some(home),
        r matches Err(e) ==> e == CommandError::NotHomeGuild,
{
    match guild {
        Some(g) => if g == home {
            Ok(())
        } else {
            Err(CommandError::NotHomeGuild)
        },
        None => Err(CommandError::NotHomeGuild),
    }
}

/// A map link, when given, must be a URL.
pub fn check_map_link(map_link: &Option<String>) -> (r: Result<(), CommandError>)
    ensures
        r is Ok <==> (map_link matches Some(l) ==> url_parses(l@)),
        r matches Err(e) ==> e == CommandError::InvalidMapLink,
{
    match map_link {
        Some(l) => if parses_as_url(l.as_str()) {
            Ok(())
        } else {
            Err(CommandError::InvalidMapLink)
        },
        None => Ok(()),
    }
}

/// The completion time of a `done` command: the given completion time, or
/// the force time less the force window, or `now` when neither is given.
/// Giving both is refused.
pub fn completion_time(completion: Option<Timestamp>, force: Option<Timestamp>, now: i64) -> (r:
    Result<i64, CommandError>)
    requires
        force matches Some(f) ==> f.0 >= i64::MIN + FORCE_WINDOW_SECS,
    ensures
        (completion is Some && force is Some) <==> r == Err::<i64, CommandError>(
            CommandError::BothTimes,
        ),
        completion matches Some(c) ==> force is None ==> r == Ok::<i64, CommandError>(c.0),
        force matches Some(f) ==> completion is None ==> r == Ok::<i64, CommandError>(
            (f.0 - FORCE_WINDOW_SECS) as i64,
        ),
        (completion is None && force is None) ==> r == Ok::<i64, CommandError>(now),
{
    match (completion, force) {
        (Some(_), Some(_)) => Err(CommandError::BothTimes),
        (Some(c), None) => Ok(c.0),
        (None, Some(f)) => Ok(f.0 - FORCE_WINDOW_SECS),
        (None, None) => Ok(now),
    }
}

/// The acknowledgement of a command: `base` as a sentence, or an error
/// sentence when not every projection could be updated.
pub fn monitor_msg(base: String, success: bool) -> (r: String)
    ensures
        success ==> r@ == base@ + "."@,
        !success ==> r@ == "Error: "@ + base@ + ", but not all monitor posts could be updated."@,
{
    if success {
        base.concat(".")
    } else {
        let mut r = String::from_str("Error: ");
        r.append(base.as_str());
        r.append(", but not all monitor posts could be updated.");
        r
    }
}

pub open spec fn train_name(world: World, expac: Expac) -> Seq<char> {
    world.spec_name() + " "@ + expac.spec_name() + " Train"@
}

fn append_train_name(out: &mut String, world: World, expac: Expac)
    ensures
        final(out)@ == old(out)@ + train_name(world, expac),
{
    out.append(world.name());
    out.append(" ");
    out.append(expac.name());
    out.append(" Train");
    assert(final(out)@ =~= old(out)@ + train_name(world, expac));
}

/// The text of the placeholder message of a new monitor.
pub fn monitor_placeholder(world: World, expac: Expac) -> (r: String)
    ensures
        r@ == "Initializing monitor for "@ + train_name(world, expac) + "..."@,
{
    let mut r = String::from_str("Initializing monitor for ");
    append_train_name(&mut r, world, expac);
    r.append("...");
    r
}

/// The text of the placeholder message of a new dashboard.
pub fn dashboard_placeholder() -> (r: String)
    ensures
        r@ == "Initializing dashboard..."@,
{
    String::from_str("Initializing dashboard...")
}

/// What a `scout` command reports, before `monitor_msg`.
pub fn scout_message(world: World, expac: Expac, map_link: &Option<String>) -> (r: String)
    ensures
        map_link is None ==> r@ == train_name(world, expac) + " has been scouted"@,
        map_link matches Some(l) ==> r@ == train_name(world, expac) + " has been [scouted]("@
            + l@ + ")"@,
{
    let mut r = String::new();
    append_train_name(&mut r, world, expac);
    match map_link {
        Some(l) => {
            r.append(" has been [scouted](");
            r.append(l.as_str());
            r.append(")");
        },
        None => r.append(" has been scouted"),
    }
    r
}

/// What a `start` command reports, before `monitor_msg`.
pub fn start_message(world: World, expac: Expac) -> (r: String)
    ensures
        r@ == train_name(world, expac) + " is now running"@,
{
    let mut r = String::new();
    append_train_name(&mut r, world, expac);
    r.append(" is now running");
    r
}

/// What a `done` command reports, before `monitor_msg`.
pub fn done_message(world: World, expac: Expac, at: i64) -> (r: String)
    ensures
        r@ == train_name(world, expac) + " completed at "@ + timestamp_markup(at as int, "f"@),
{
    let mut r = String::new();
    append_train_name(&mut r, world, expac);
    r.append(" completed at ");
    append_timestamp(&mut r, at as i128, "f");
    r
}

} // verus!
