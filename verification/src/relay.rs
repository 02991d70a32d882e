//! The non-owner's argument relay.
//!
//! A late-coming process does not open files itself: it classifies its
//! command-line arguments, sends a handshake message through the owner's
//! primary pipe naming a fresh rendezvous channel, exchanges one structured
//! request over that channel, and exits with the status the owner reports in
//! its terminal response. The primary pipe stays bounded and textual; only
//! the rendezvous address travels through it.

use vstd::prelude::*;
use vstd::string::*;
use crate::chars::{starts_with_spec, starts_with_prefix};

verus! {

/// Scheme of the handshake message sent through the primary pipe.
pub open spec fn handshake_scheme() -> Seq<char> {
    "zed-cli://"@
}

/// Whether an argument is forwarded as a URL rather than as a filesystem
/// path: it begins with one of the URL schemes the application opens.
pub open spec fn is_forwarded_url_spec(s: Seq<char>) -> bool {
    ||| starts_with_spec(s, "zed://"@)
    ||| starts_with_spec(s, "http://"@)
    ||| starts_with_spec(s, "https://"@)
    ||| starts_with_spec(s, "file://"@)
    ||| starts_with_spec(s, "ssh://"@)
}

/// The arguments forwarded as URLs, in order.
pub open spec fn forwarded_urls(args: Seq<Seq<char>>) -> Seq<Seq<char>>
    decreases args.len(),
{
    if args.len() == 0 {
        Seq::empty()
    } else {
        forwarded_urls(args.drop_last()) + if is_forwarded_url_spec(args.last()) {
            seq![args.last()]
        } else {
            Seq::<Seq<char>>::empty()
        }
    }
}

/// The arguments forwarded as paths, in order: the canonical form of every
/// non-URL argument that names something the filesystem could resolve.
pub open spec fn forwarded_paths(
    args: Seq<Seq<char>>,
    canonical: Seq<Option<Seq<char>>>,
) -> Seq<Seq<char>>
    recommends
        args.len() == canonical.len(),
    decreases args.len(),
{
    if args.len() == 0 {
        Seq::empty()
    } else {
        forwarded_paths(args.drop_last(), canonical.drop_last()) + if !is_forwarded_url_spec(
            args.last(),
        ) {
            match canonical.last() {
                Some(path) => seq![path],
                None => Seq::<Seq<char>>::empty(),
            }
        } else {
            Seq::<Seq<char>>::empty()
        }
    }
}

/// Whether an argument is forwarded as a URL.
pub fn is_forwarded_url(arg: &str) -> (r: bool)
    ensures
        r == is_forwarded_url_spec(arg@),
{
    starts_with_prefix(arg, "zed://") || starts_with_prefix(arg, "http://") || starts_with_prefix(
        arg,
        "https://",
    ) || starts_with_prefix(arg, "file://") || starts_with_prefix(arg, "ssh://")
}

/// Splits the invocation arguments into the paths and URLs of the forwarded
/// request. `canonical` holds, for each argument, the canonical form the
/// filesystem reported for it, or nothing where resolution failed; it is
/// consulted only for non-URL arguments.
pub fn partition_args(args: &Vec<String>, canonical: &Vec<Option<String>>) -> (r: (
    Vec<String>,
    Vec<String>,
))
    requires
        args@.len() == canonical@.len(),
    ensures
        r.0@.map_values(|s: String| s@) == forwarded_paths(
            args@.map_values(|s: String| s@),
            canonical@.map_values(|c: Option<String>| c.deep_view()),
        ),
        r.1@.map_values(|s: String| s@) == forwarded_urls(args@.map_values(|s: String| s@)),
{
    let ghost args_view = args@.map_values(|s: String| s@);
    let ghost canon_view = canonical@.map_values(|c: Option<String>| c.deep_view());
    let mut paths: Vec<String> = Vec::new();
    let mut urls: Vec<String> = Vec::new();
    let mut i: usize = 0;
    while i < args.len()
        invariant
            i <= args@.len(),
            args@.len() == canonical@.len(),
            args_view == args@.map_values(|s: String| s@),
            canon_view == canonical@.map_values(|c: Option<String>| c.deep_view()),
            paths@.map_values(|s: String| s@) == forwarded_paths(
                args_view.take(i as int),
                canon_view.take(i as int),
            ),
            urls@.map_values(|s: String| s@) == forwarded_urls(args_view.take(i as int)),
        decreases args@.len() - i,
    {
        if is_forwarded_url(&args[i]) {
            urls.push(args[i].clone());
        } else {
            match &canonical[i] {
                Some(path) => {
                    paths.push(path.clone());
                },
                None => {},
            }
        }
        proof {
            let next_args = args_view.take(i as int + 1);
            let next_canon = canon_view.take(i as int + 1);
            assert(next_args.drop_last() =~= args_view.take(i as int));
            assert(next_canon.drop_last() =~= canon_view.take(i as int));
            assert(next_args.last() == args_view[i as int]);
            assert(next_canon.last() == canon_view[i as int]);
            assert(urls@.map_values(|s: String| s@) =~= forwarded_urls(next_args));
            assert(paths@.map_values(|s: String| s@) =~= forwarded_paths(next_args, next_canon));
        }
        i = i + 1;
    }
    proof {
        assert(args_view.take(args@.len() as int) =~= args_view);
        assert(canon_view.take(args@.len() as int) =~= canon_view);
    }
    (paths, urls)
}

/// The structured request a late-coming process forwards to the owner over
/// the rendezvous channel.
pub enum CliRequest {
    Open {
        paths: Vec<String>,
        urls: Vec<String>,
        wait: bool,
        open_new_workspace: Option<bool>,
        env: Option<Vec<(String, String)>>,
    },
}

/// One message of the owner's response stream: any number of informational
/// messages, then exactly one terminal exit status.
pub enum CliResponse {
    Ping,
    Stdout { message: String },
    Stderr { message: String },
    Exit { status: i32 },
}

/// Builds the request a forwarded invocation sends: open the given paths and
/// URLs in the running instance, without waiting, in whatever workspace the
/// owner chooses, with no environment overrides.
pub fn build_open_request(paths: Vec<String>, urls: Vec<String>) -> (r: CliRequest)
    ensures
        r == (CliRequest::Open {
            paths,
            urls,
            wait: false,
            open_new_workspace: None::<bool>,
            env: None::<Vec<(String, String)>>,
        }),
{
    CliRequest::Open { paths, urls, wait: false, open_new_workspace: None, env: None }
}

/// The status of the first terminal message of a response stream, if any.
pub open spec fn first_exit_status(responses: Seq<CliResponse>) -> Option<i32>
    decreases responses.len(),
{
    if responses.len() == 0 {
        None
    } else {
        match responses[0] {
            CliResponse::Exit { status } => Some(status),
            _ => first_exit_status(responses.drop_first()),
        }
    }
}

/// Scans the owner's response stream for the terminal message and yields the
/// exit status it carries; a stream that ended without one yields nothing
/// and the client falls through to its normal exit.
pub fn final_exit_status(responses: &Vec<CliResponse>) -> (r: Option<i32>)
    ensures
        r == first_exit_status(responses@),
{
    let mut i: usize = 0;
    proof {
        assert(responses@.skip(0) =~= responses@);
    }
    while i < responses.len()
        invariant
            i <= responses@.len(),
            first_exit_status(responses@) == first_exit_status(responses@.skip(i as int)),
        decreases responses@.len() - i,
    {
        let ghost rest = responses@.skip(i as int);
        match &responses[i] {
            CliResponse::Exit { status } => {
                return Some(*status);
            },
            _ => {},
        }
        proof {
            assert(rest[0] == responses@[i as int]);
            assert(rest.drop_first() =~= responses@.skip(i as int + 1));
        }
        i = i + 1;
    }
    proof {
        assert(responses@.skip(responses@.len() as int) =~= Seq::<CliResponse>::empty());
    }
    None
}

/// Why a forwarded invocation failed.
#[derive(Clone, Copy, Debug, PartialEq, Eq, Structural)]
pub enum ForwardError {
    /// The owner's primary pipe could not be reached: the running instance
    /// is gone or its identifier is stale. The caller does not retry; the
    /// invoking shell decides whether to run standalone instead.
    CouldNotReachInstance,
}

/// Decides how a late-coming process terminates: a failed connection is
/// surfaced as an error, a completed exchange ends with the status of the
/// terminal response, and a stream that closed without one leaves the exit
/// to the process's own shutdown.
pub fn client_exit_decision(connected: bool, responses: &Vec<CliResponse>) -> (r: Result<
    Option<i32>,
    ForwardError,
>)
    ensures
        connected ==> r == Ok::<Option<i32>, ForwardError>(first_exit_status(responses@)),
        !connected ==> r == Err::<Option<i32>, ForwardError>(ForwardError::CouldNotReachInstance),
{
    if !connected {
        return Err(ForwardError::CouldNotReachInstance);
    }
    Ok(final_exit_status(responses))
}

/// Builds the handshake message for the primary pipe: the scheme, then the
/// name of the fresh rendezvous channel.
pub fn handshake_url(server_name: &str) -> (r: String)
    ensures
        r@ == handshake_scheme() + server_name@,
{
    let mut r = String::from_str("zed-cli://");
    r.append(server_name);
    r
}

/// Reads the rendezvous channel name back out of a handshake message: the
/// part after the scheme, or nothing if the message does not carry the
/// scheme.
pub fn handshake_server_name(message: &str) -> (r: Option<String>)
    ensures
        starts_with_spec(message@, handshake_scheme()) ==> (r matches Some(name) && name@
            == message@.subrange(handshake_scheme().len() as int, message@.len() as int)),
        !starts_with_spec(message@, handshake_scheme()) ==> r is None,
{
    if !starts_with_prefix(message, "zed-cli://") {
        return None;
    }
    let n = "zed-cli://".unicode_len();
    let name = message.substring_char(n, message.unicode_len());
    Some(String::from_str(name))
}

/// The rendezvous name travels the primary pipe unharmed: reading the
/// handshake message built for a channel name yields that name again.
pub proof fn lemma_handshake_round_trip(name: Seq<char>)
    ensures
        starts_with_spec(handshake_scheme() + name, handshake_scheme()),
        (handshake_scheme() + name).subrange(
            handshake_scheme().len() as int,
            (handshake_scheme() + name).len() as int,
        ) == name,
{
    let m = handshake_scheme() + name;
    assert(m.subrange(0, handshake_scheme().len() as int) =~= handshake_scheme());
    assert(m.subrange(handshake_scheme().len() as int, m.len() as int) =~= name);
}

} // verus!
