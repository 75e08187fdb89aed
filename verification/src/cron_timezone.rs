//! The time zone that a scheduled task runs in, and when it runs next.
//!
//! A time zone is its name in the IANA database.
use vstd::prelude::*;

use crate::config::{CronConfig, UserConfig};
use crate::text::{cat2, cat3, cat5, opt_str_view, same_text};

verus! {

/// The zone that is used where the machine gives none.
pub const UTC: &'static str = "UTC";

/// The first and the last second, counted from the start of 1970, that a
/// schedule can be asked about.
pub const LAST_SECOND: i64 = 8_000_000_000_000;

/// Whether the database that `chrono_tz` carries has a time zone of a name.
pub uninterp spec fn timezone_known(name: Seq<char>) -> bool;

/// `chrono_tz::Tz::from_str`. Claimed: whether it succeeds depends on the name
/// alone, and is what [`timezone_known`] names. (The zone found is the one of
/// that very name.)
#[verifier::external_body]
pub(crate) fn is_timezone(name: &str) -> (r: bool)
    ensures
        r == timezone_known(name@),
{
    name.parse::<chrono_tz::Tz>().is_ok()
}

/// What `cron` says of a text that is no schedule, none where it is one. The
/// text has a field for the second before those of a usual expression.
pub uninterp spec fn schedule_fault(schedule: Seq<char>) -> Option<Seq<char>>;

/// `cron::Schedule::from_str`, with the error as the text it displays. Claimed:
/// whether it fails, and what it then says, depends on the text alone, and is
/// what [`schedule_fault`] names.
#[verifier::external_body]
fn fault_of(schedule: &str) -> (r: Option<String>)
    ensures
        crate::text::opt_view(r) == schedule_fault(schedule@),
{
    match schedule.parse::<cron::Schedule>() {
        Ok(_) => None,
        Err(e) => Some(e.to_string()),
    }
}

/// When a schedule fires next after a second, on the wall clock of a time
/// zone: none where the schedule or the time zone is not one, and where it
/// never fires again.
pub uninterp spec fn next_fire(schedule: Seq<char>, timezone: Seq<char>, after: int) -> Option<i64>;

/// `cron::Schedule::after` from a second that `chrono` moves to the time zone,
/// and its first item, moved back. Claimed: it depends on the three arguments
/// alone, is what [`next_fire`] names, and is none for a text that is no
/// schedule and for an unknown time zone. The range of seconds is one in which
/// `chrono` can add a second and an offset.
#[verifier::external_body]
fn fire_after(schedule: &str, timezone: &str, after: i64) -> (r: Option<i64>)
    requires
        -LAST_SECOND <= after <= LAST_SECOND,
    ensures
        r == next_fire(schedule@, timezone@, after as int),
        schedule_fault(schedule@) is Some || !timezone_known(timezone@) ==> r is None,
{
    let schedule: cron::Schedule = schedule.parse().ok()?;
    let timezone: chrono_tz::Tz = timezone.parse().ok()?;
    let after = chrono::DateTime::from_timestamp(after, 0)?;
    let next = schedule.after(&after.with_timezone(&timezone)).next()?;
    Some(next.timestamp())
}

pub open spec fn zone_of(name: Seq<char>) -> Result<Seq<char>, Seq<char>> {
    if timezone_known(name) {
        Ok(name)
    } else {
        Err("invalid timezone '"@ + name + "'"@)
    }
}

pub open spec fn zone_views(r: Result<String, String>) -> Result<Seq<char>, Seq<char>> {
    match r {
        Ok(s) => Ok(s@),
        Err(s) => Err(s@),
    }
}

/// The time zone of a name.
pub fn parse_timezone(name: &str) -> (r: Result<String, String>)
    ensures
        zone_views(r) == zone_of(name@),
{
    if is_timezone(name) {
        Ok(name.to_owned())
    } else {
        Err(cat3("invalid timezone '", name, "'"))
    }
}

/// The machine's time zone, or UTC where there is none.
pub open spec fn default_zone(default: Option<Seq<char>>) -> Seq<char> {
    match default {
        Some(name) => name,
        None => UTC@,
    }
}

pub fn default_timezone_or_utc(default: Option<&str>) -> (r: String)
    ensures
        r@ == default_zone(opt_str_view(default)),
{
    match default {
        Some(name) => name.to_owned(),
        None => UTC.to_owned(),
    }
}

/// The machine's time zone, where it has a name that the database knows.
pub fn system_timezone(name: Option<&str>) -> (r: Option<String>)
    ensures
        crate::text::opt_view(r) == (match name {
            Some(n) => if timezone_known(n@) { Some(n@) } else { None },
            None => None,
        }),
{
    match name {
        Some(n) => if is_timezone(n) { Some(n.to_owned()) } else { None },
        None => None,
    }
}

/// A user's time zone: their own where they have one, else the default.
pub open spec fn user_zone(user: UserConfig, default: Option<Seq<char>>) -> Result<
    Seq<char>,
    Seq<char>,
> {
    match user.timezone {
        Some(name) => if timezone_known(name@) {
            Ok(name@)
        } else {
            Err("user '"@ + user.name@ + "' has invalid timezone"@)
        },
        None => Ok(default_zone(default)),
    }
}

pub fn resolve_user_timezone_with_default(user: &UserConfig, default: Option<&str>) -> (r: Result<
    String,
    String,
>)
    ensures
        zone_views(r) == user_zone(*user, opt_str_view(default)),
{
    match &user.timezone {
        Some(name) => match parse_timezone(name.as_str()) {
            Ok(zone) => Ok(zone),
            Err(_) => Err(cat3("user '", user.name.as_str(), "' has invalid timezone")),
        },
        None => Ok(default_timezone_or_utc(default)),
    }
}

/// The first user of a name.
pub open spec fn user_named(users: Seq<UserConfig>, name: Seq<char>) -> Option<UserConfig>
    decreases users.len(),
{
    if users.len() == 0 {
        None
    } else if users[0].name@ == name {
        Some(users[0])
    } else {
        user_named(users.skip(1), name)
    }
}

pub fn find_user<'a>(users: &'a Vec<UserConfig>, name: &str) -> (r: Option<&'a UserConfig>)
    ensures
        match r {
            Some(u) => user_named(users@, name@) == Some(*u),
            None => user_named(users@, name@) is None,
        },
{
    let n: usize = users.len();
    assert(users@.skip(0) =~= users@);
    for i in 0..n
        invariant
            n == users.len(),
            user_named(users@, name@) == user_named(users@.skip(i as int), name@),
    {
        assert(users@.skip(i as int)[0] == users@[i as int]);
        assert(users@.skip(i as int).skip(1) =~= users@.skip(i + 1));
        if same_text(users[i].name.as_str(), name) {
            return Some(&users[i]);
        }
    }
    None
}

/// A task's time zone: its own where it has one, else that of the user it runs
/// for, else the default.
pub open spec fn cron_zone(
    entry: CronConfig,
    users: Seq<UserConfig>,
    default: Option<Seq<char>>,
) -> Result<Seq<char>, Seq<char>> {
    let user = match entry.user {
        Some(name) => user_named(users, name@),
        None => None,
    };
    match (entry.timezone, user) {
        (Some(name), _) => if timezone_known(name@) {
            Ok(name@)
        } else {
            Err("cron '"@ + entry.name@ + "' has invalid timezone"@)
        },
        (None, Some(u)) => match user_zone(u, default) {
            Ok(zone) => Ok(zone),
            Err(_) => Err(
                "cron '"@ + entry.name@ + "' inherits timezone from user '"@ + entry.user->0@ + "'"@,
            ),
        },
        (None, None) => Ok(default_zone(default)),
    }
}

pub fn resolve_cron_timezone_with_default(
    entry: &CronConfig,
    users: &Vec<UserConfig>,
    default: Option<&str>,
) -> (r: Result<String, String>)
    ensures
        zone_views(r) == cron_zone(*entry, users@, opt_str_view(default)),
{
    if let Some(name) = &entry.timezone {
        return match parse_timezone(name.as_str()) {
            Ok(zone) => Ok(zone),
            Err(_) => Err(cat3("cron '", entry.name.as_str(), "' has invalid timezone")),
        };
    }
    if let Some(user_name) = &entry.user {
        if let Some(user) = find_user(users, user_name.as_str()) {
            return match resolve_user_timezone_with_default(user, default) {
                Ok(zone) => Ok(zone),
                Err(_) => Err(
                    cat5(
                        "cron '",
                        entry.name.as_str(),
                        "' inherits timezone from user '",
                        user_name.as_str(),
                        "'",
                    ),
                ),
            };
        }
    }
    Ok(default_timezone_or_utc(default))
}

/// The schedule that an expression of five fields stands for: it fires at the
/// start of the minutes that the expression gives.
pub open spec fn schedule_of(expression: Seq<char>) -> Seq<char> {
    "0 "@ + expression
}

/// Why an expression is no schedule, where it is none.
pub fn parse_cron_fault(expression: &str) -> (r: Option<String>)
    ensures
        crate::text::opt_view(r) == schedule_fault(schedule_of(expression@)),
{
    fault_of(cat2("0 ", expression).as_str())
}

/// When an expression fires next after a second, on the wall clock of a time
/// zone.
pub fn next_cron_fire_after(expression: &str, timezone: &str, after: i64) -> (r: Option<i64>)
    requires
        -LAST_SECOND <= after <= LAST_SECOND,
    ensures
        r == next_fire(schedule_of(expression@), timezone@, after as int),
        schedule_fault(schedule_of(expression@)) is Some || !timezone_known(timezone@) ==> r is None,
{
    fire_after(cat2("0 ", expression).as_str(), timezone, after)
}

/// A task whose time zone is set runs in it, whoever it runs for and wherever
/// the machine is.
pub proof fn own_timezone_wins(
    entry: CronConfig,
    users: Seq<UserConfig>,
    others: Seq<UserConfig>,
    default: Option<Seq<char>>,
    other: Option<Seq<char>>,
)
    requires
        entry.timezone is Some,
    ensures
        cron_zone(entry, users, default) == cron_zone(entry, others, other),
        timezone_known(entry.timezone->0@) ==> cron_zone(entry, users, default) == Ok::<
            Seq<char>,
            Seq<char>,
        >(entry.timezone->0@),
{
}

/// A time zone that resolves is one that the database knows, where the default
/// is and UTC is.
pub proof fn resolved_timezone_is_known(
    entry: CronConfig,
    users: Seq<UserConfig>,
    default: Option<Seq<char>>,
)
    requires
        timezone_known(default_zone(default)),
    ensures
        cron_zone(entry, users, default) matches Ok(zone) ==> timezone_known(zone),
{
}

} // verus!
