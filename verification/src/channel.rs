//! Release channels and the identifiers derived from them.
//!
//! A process belongs to one release channel. The names of the systemwide
//! objects it creates (the instance mutex, the message pipe) are derived from
//! the channel, so that processes of different channels never collide.

use vstd::prelude::*;
use vstd::string::*;

verus! {

/// The release channel an application build belongs to. It is passed
/// explicitly into every identifier-building function, never read from
/// ambient global state, so the subsystem stays testable with several
/// simulated channels in one process.
#[derive(Clone, Copy, Debug, PartialEq, Eq, Structural)]
pub enum ReleaseChannel {
    Dev,
    Nightly,
    Preview,
    Stable,
}

/// The application identifier of a channel, as a sequence of characters.
pub open spec fn app_identifier_spec(channel: ReleaseChannel) -> Seq<char> {
    match channel {
        ReleaseChannel::Dev => "Zed-Editor-Dev"@,
        ReleaseChannel::Nightly => "Zed-Editor-Nightly"@,
        ReleaseChannel::Preview => "Zed-Editor-Preview"@,
        ReleaseChannel::Stable => "Zed-Editor-Stable"@,
    }
}

/// The full identifier of a named object: application identifier, a dash,
/// then the purpose suffix.
pub open spec fn identifier_spec(channel: ReleaseChannel, name: Seq<char>) -> Seq<char> {
    app_identifier_spec(channel) + "-"@ + name
}

/// The application identifier of the given release channel.
pub fn retrieve_app_identifier(channel: ReleaseChannel) -> (r: &'static str)
    ensures
        r@ == app_identifier_spec(channel),
{
    match channel {
        ReleaseChannel::Dev => "Zed-Editor-Dev",
        ReleaseChannel::Nightly => "Zed-Editor-Nightly",
        ReleaseChannel::Preview => "Zed-Editor-Preview",
        ReleaseChannel::Stable => "Zed-Editor-Stable",
    }
}

/// Builds the identifier of a named object scoped to a release channel,
/// e.g. `Zed-Editor-Dev-Instance-Mutex`.
pub fn generate_identifier(channel: ReleaseChannel, name: &str) -> (r: String)
    ensures
        r@ == identifier_spec(channel, name@),
{
    let mut r = String::from_str(retrieve_app_identifier(channel));
    r.append("-");
    r.append(name);
    r
}

/// Builds a channel-scoped identifier under a fixed prefix, e.g. the pipe
/// namespace prefix `\\.\pipe\`.
pub fn generate_identifier_with_prefix(prefix: &str, channel: ReleaseChannel, name: &str) -> (r:
    String)
    ensures
        r@ == prefix@ + identifier_spec(channel, name@),
{
    let mut r = String::from_str(prefix);
    r.append(retrieve_app_identifier(channel));
    r.append("-");
    r.append(name);
    r
}

/// Application identifiers of distinct channels differ.
pub proof fn lemma_app_identifier_injective(c1: ReleaseChannel, c2: ReleaseChannel)
    requires
        c1 != c2,
    ensures
        app_identifier_spec(c1) != app_identifier_spec(c2),
{
    reveal_strlit("Zed-Editor-Dev");
    reveal_strlit("Zed-Editor-Nightly");
    reveal_strlit("Zed-Editor-Preview");
    reveal_strlit("Zed-Editor-Stable");
    let a1 = app_identifier_spec(c1);
    let a2 = app_identifier_spec(c2);
    if a1.len() == a2.len() {
        // Only the Nightly and Preview identifiers share a length; they
        // differ at the first character after the common `Zed-Editor-` stem.
        assert(a1[11] != a2[11]);
    }
}

/// Two processes of distinct release channels never target the same named
/// object: for every purpose suffix, the derived identifiers differ.
pub proof fn lemma_identifier_distinct_channels(
    c1: ReleaseChannel,
    c2: ReleaseChannel,
    name: Seq<char>,
)
    requires
        c1 != c2,
    ensures
        identifier_spec(c1, name) != identifier_spec(c2, name),
{
    reveal_strlit("Zed-Editor-Dev");
    reveal_strlit("Zed-Editor-Nightly");
    reveal_strlit("Zed-Editor-Preview");
    reveal_strlit("Zed-Editor-Stable");
    let a1 = app_identifier_spec(c1);
    let a2 = app_identifier_spec(c2);
    let i1 = identifier_spec(c1, name);
    let i2 = identifier_spec(c2, name);
    if a1.len() != a2.len() {
        assert(i1.len() != i2.len());
    } else {
        // Only the Nightly and Preview identifiers share a length; they
        // differ at the first character after the common `Zed-Editor-` stem.
        assert(a1[11] != a2[11]);
        assert(i1[11] == a1[11]);
        assert(i2[11] == a2[11]);
    }
}

} // verus!
