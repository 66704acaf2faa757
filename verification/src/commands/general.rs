//! The bot's information card: who made it, how long it has run, and
//! how much it serves and uses.
use vstd::prelude::*;
use crate::text::{decimal, push_decimal};
use crate::utils::divmod;

verus! {

/// A span of seconds split into whole hours, then minutes and seconds
/// below sixty.
pub fn hours_minutes_seconds(total: usize) -> (hms: (usize, usize, usize))
    ensures
        hms.0 == total / 3600,
        hms.1 == (total % 3600) / 60,
        hms.2 == total % 60,
        hms.1 < 60,
        hms.2 < 60,
        hms.0 * 3600 + hms.1 * 60 + hms.2 == total,
{
    let (hours, rest) = divmod(total, 3600);
    let (minutes, seconds) = divmod(rest, 60);
    assert(rest % 60 == total % 60) by (nonlinear_arith)
        requires
            rest == total % 3600,
    ;
    (hours, minutes, seconds)
}

/// The information field of the card for an uptime split into hours,
/// minutes and seconds.
pub open spec fn information_text(hours: nat, minutes: nat, seconds: nat) -> Seq<char> {
    "\n                **Developer**: void_ux\n                **Uptime**: "@ + decimal(hours)
        + " hours, "@ + decimal(minutes) + " minutes and "@ + decimal(seconds)
        + " seconds\n                "@
}

/// Law: the uptime shown in the information field adds up to the uptime:
/// it is written as some whole hours, minutes and seconds, with minutes and
/// seconds below sixty, that together make `uptime` seconds.
pub proof fn law_uptime_adds_up(uptime: usize)
    ensures
        exists|h: nat, m: nat, s: nat|
            #![trigger decimal(h), decimal(m), decimal(s)]
            h * 3600 + m * 60 + s == uptime && m < 60 && s < 60 && information_text(
                (uptime / 3600) as nat,
                ((uptime % 3600) / 60) as nat,
                (uptime % 60) as nat,
            ) == "\n                **Developer**: void_ux\n                **Uptime**: "@ + decimal(h)
                + " hours, "@ + decimal(m) + " minutes and "@ + decimal(s)
                + " seconds\n                "@,
{
    let h = (uptime / 3600) as nat;
    let m = ((uptime % 3600) / 60) as nat;
    let s = (uptime % 60) as nat;
    assert(h * 3600 + m * 60 + s == uptime) by (nonlinear_arith)
        requires
            h == uptime / 3600,
            m == (uptime % 3600) / 60,
            s == uptime % 60,
    ;
    assert(decimal(h) == decimal(h) && decimal(m) == decimal(m) && decimal(s) == decimal(s));
}

/// The information field of the card, for the bot having run `uptime` seconds.
pub fn about_information(uptime: usize) -> (s: String)
    ensures
        s@ == information_text(
            (uptime / 3600) as nat,
            ((uptime % 3600) / 60) as nat,
            (uptime % 60) as nat,
        ),
{
    let (hours, minutes, seconds) = hours_minutes_seconds(uptime);
    let mut s = String::from_str("\n                **Developer**: void_ux\n                **Uptime**: ");
    push_decimal(&mut s, hours as u64);
    s.append(" hours, ");
    push_decimal(&mut s, minutes as u64);
    s.append(" minutes and ");
    push_decimal(&mut s, seconds as u64);
    s.append(" seconds\n                ");
    s
}

/// The statistics field of the card.
pub open spec fn statistics_text(servers: nat, users: nat, megabytes: nat) -> Seq<char> {
    "\n                **Servers**: "@ + decimal(servers) + "\n                **Users**: "@
        + decimal(users) + "\n                **RAM**: "@ + decimal(megabytes)
        + " Mb\n                **Latency**: N/A\n                "@
}

/// The statistics field of the card: servers and users that the bot sees,
/// and the memory it uses, given in bytes and shown in whole mebibytes.
pub fn about_statistics(servers: usize, users: usize, memory_bytes: u64) -> (s: String)
    ensures
        s@ == statistics_text(servers as nat, users as nat, (memory_bytes / 1024 / 1024) as nat),
{
    let mut s = String::from_str("\n                **Servers**: ");
    push_decimal(&mut s, servers as u64);
    s.append("\n                **Users**: ");
    push_decimal(&mut s, users as u64);
    s.append("\n                **RAM**: ");
    push_decimal(&mut s, memory_bytes / 1024 / 1024);
    s.append(" Mb\n                **Latency**: N/A\n                ");
    s
}

} // verus!
