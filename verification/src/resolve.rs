//! Where a package lives, and which tool installs it.
//!
//! The two registries are asked by the caller. This module says which of them
//! to ask next and at what address, and classifies the package from the
//! answers.

use vstd::prelude::*;
use vstd::string::*;
use crate::model::{ExecConfig, PackageOrigin};
use crate::text::{ends_with, has_suffix, join_range, same_text, spaced, texts};

verus! {

/// A name that is found in the community repository only: by its suffix, or
/// because it is one of a few well-known packages.
pub open spec fn probably_aur(pkg: Seq<char>) -> bool {
    has_suffix(pkg, "-bin"@) || has_suffix(pkg, "-git"@) || has_suffix(pkg, "-svn"@) || has_suffix(
        pkg,
        "-hg"@,
    ) || pkg == "google-chrome"@ || pkg == "brave-bin"@ || pkg == "microsoft-edge-stable-bin"@
        || pkg == "visual-studio-code-bin"@ || pkg == "wps-office"@ || pkg == "slack-desktop"@
        || pkg == "zoom"@ || pkg == "spotify"@
}

/// Whether `pkg` looks like a package of the community repository.
pub fn is_probably_aur(pkg: &str) -> (r: bool)
    ensures
        r == probably_aur(pkg@),
{
    ends_with(pkg, "-bin") || ends_with(pkg, "-git") || ends_with(pkg, "-svn") || ends_with(
        pkg,
        "-hg",
    ) || same_text(pkg, "google-chrome") || same_text(pkg, "brave-bin") || same_text(
        pkg,
        "microsoft-edge-stable-bin",
    ) || same_text(pkg, "visual-studio-code-bin") || same_text(pkg, "wps-office") || same_text(
        pkg,
        "slack-desktop",
    ) || same_text(pkg, "zoom") || same_text(pkg, "spotify")
}

/// What the registries have answered so far. `None`: not asked yet. A query
/// that failed counts as answered with `false`.
#[derive(Clone, Copy, Debug)]
pub struct Replies {
    pub repo: Option<bool>,
    pub aur: Option<bool>,
}

/// A registry to ask, with the address of the query.
#[derive(Debug)]
pub enum Query {
    Repo(String),
    Aur(String),
}

/// Which registry is to be asked next, if any.
pub enum Pending {
    Nothing,
    Repo,
    Aur,
}

/// The registry that is to be asked next: none when offline; the official one
/// first; the community one only after the official one had nothing.
pub open spec fn pending(c: ExecConfig, seen: Replies) -> Pending {
    if c.offline {
        Pending::Nothing
    } else if seen.repo is None {
        Pending::Repo
    } else if seen.repo == Some(true) {
        Pending::Nothing
    } else if seen.aur is None {
        Pending::Aur
    } else {
        Pending::Nothing
    }
}

/// The classification that the answers give.
pub open spec fn origin_of(c: ExecConfig, seen: Replies) -> PackageOrigin {
    if c.offline {
        PackageOrigin::Offline
    } else if seen.repo == Some(true) {
        PackageOrigin::Repo
    } else if seen.aur == Some(true) {
        PackageOrigin::Aur
    } else {
        PackageOrigin::Unknown
    }
}

/// The bytes that stand for themselves in a query: ASCII letters and digits,
/// and `-`, `.`, `_`, `~`.
pub open spec fn unreserved(b: u8) -> bool {
    (0x30 <= b <= 0x39) || (0x41 <= b <= 0x5a) || (0x61 <= b <= 0x7a) || b == 0x2d || b == 0x2e
        || b == 0x5f || b == 0x7e
}

/// The hexadecimal digit for a value below 16, letters in upper case.
pub open spec fn hex_digit(d: u8) -> char {
    if d < 10 {
        (0x30 + d) as char
    } else {
        (0x41 - 10 + d) as char
    }
}

/// A byte as it stands in a query: itself, or `%` and its two hexadecimal
/// digits.
pub open spec fn escaped_byte(b: u8) -> Seq<char> {
    if unreserved(b) {
        seq![b as char]
    } else {
        seq!['%', hex_digit(b / 16), hex_digit(b % 16)]
    }
}

/// The bytes, each escaped, in order.
pub open spec fn escaped(bytes: Seq<u8>) -> Seq<char>
    decreases bytes.len(),
{
    if bytes.len() == 0 {
        Seq::<char>::empty()
    } else {
        escaped(bytes.drop_last()) + escaped_byte(bytes.last())
    }
}

/// The percent-encoded form of a text: the bytes of its UTF-8 form, escaped.
pub open spec fn percent_encoded(s: Seq<char>) -> Seq<char> {
    escaped(vstd::utf8::encode_utf8(s))
}

/// Calls `urlencoding::encode`, which percent-encodes every byte of the
/// text's UTF-8 form except ASCII letters, digits and `-`, `_`, `.`, `~`, with
/// hexadecimal digits in upper case.
#[verifier::external_body]
fn encode_component(s: &str) -> (r: String)
    ensures
        r@ == percent_encoded(s@),
{
    urlencoding::encode(s).into_owned()
}

/// The address of the official registry's search for `pkg`.
pub open spec fn repo_url(pkg: Seq<char>) -> Seq<char> {
    "https://archlinux.org/packages/search/json/?q="@ + percent_encoded(pkg)
}

/// The address of the community registry's record of `pkg`.
pub open spec fn aur_url(pkg: Seq<char>) -> Seq<char> {
    "https://aur.archlinux.org/rpc/?v=5&type=info&arg="@ + percent_encoded(pkg)
}

impl Replies {
    /// Nothing asked yet.
    pub fn none() -> (r: Replies)
        ensures
            r.repo is None,
            r.aur is None,
    {
        Replies { repo: None, aur: None }
    }

    /// The replies with the answer to `asked` noted.
    pub open spec fn noting(self, asked: Pending, found: bool) -> Replies {
        match asked {
            Pending::Nothing => self,
            Pending::Repo => Replies { repo: Some(found), aur: self.aur },
            Pending::Aur => Replies { repo: self.repo, aur: Some(found) },
        }
    }

    /// Notes the answer to a query.
    pub fn record(self, query: &Query, found: bool) -> (r: Replies)
        ensures
            r == self.noting(query.registry(), found),
    {
        match query {
            Query::Repo(_) => Replies { repo: Some(found), aur: self.aur },
            Query::Aur(_) => Replies { repo: self.repo, aur: Some(found) },
        }
    }
}

impl Query {
    /// The registry that the query goes to.
    pub open spec fn registry(&self) -> Pending {
        match self {
            Query::Repo(_) => Pending::Repo,
            Query::Aur(_) => Pending::Aur,
        }
    }
}

/// Whether the official registry has the package, by the number of results
/// in its answer. `None`: the query failed, which counts as not found.
pub fn repo_hit(results: Option<usize>) -> (r: bool)
    ensures
        r == (results matches Some(n) && n > 0),
{
    match results {
        Some(n) => n > 0,
        None => false,
    }
}

/// Whether the community registry has the package, by the result count in
/// its answer. `None`: the query failed; `Some(None)`: the answer gives no
/// count. Both count as not found.
pub fn aur_hit(count: Option<Option<u32>>) -> (r: bool)
    ensures
        r == (count matches Some(Some(n)) && n > 0),
{
    match count {
        Some(Some(n)) => n > 0,
        _ => false,
    }
}

/// Resolution ends: once the answer to the pending query is noted, that
/// registry is not asked again, and after the community registry none is.
/// So a package costs at most two queries, the official registry first.
pub proof fn law_resolution_ends(c: ExecConfig, seen: Replies, found: bool)
    ensures
        pending(c, seen) is Repo ==> !(pending(c, seen.noting(Pending::Repo, found)) is Repo),
        pending(c, seen) is Aur ==> pending(c, seen.noting(Pending::Aur, found)) is Nothing,
        pending(c, seen) is Repo && found ==> pending(c, seen.noting(Pending::Repo, found))
            is Nothing,
        c.offline ==> pending(c, seen) is Nothing && origin_of(c, seen) == PackageOrigin::Offline,
{
}

/// The address at which `base` is asked about an encoded package name.
pub fn query_url(base: &str, encoded: &str) -> (r: String)
    ensures
        r@ == base@ + encoded@,
{
    String::from_str(base).concat(encoded)
}

/// The next query to send for `pkg`, or `None` when the answers suffice.
/// Offline, there never is one.
pub fn next_query(pkg: &str, config: &ExecConfig, seen: &Replies) -> (r: Option<Query>)
    ensures
        match pending(*config, *seen) {
            Pending::Nothing => r is None,
            Pending::Repo => r matches Some(Query::Repo(u)) && u@ == repo_url(pkg@),
            Pending::Aur => r matches Some(Query::Aur(u)) && u@ == aur_url(pkg@),
        },
        config.offline ==> r is None,
{
    if config.offline {
        return None;
    }
    match seen.repo {
        None => {
            let e: String = encode_component(pkg);
            Some(Query::Repo(query_url("https://archlinux.org/packages/search/json/?q=", e.as_str())))
        },
        Some(true) => None,
        Some(false) => match seen.aur {
            None => {
                let e: String = encode_component(pkg);
                Some(
                    Query::Aur(
                        query_url("https://aur.archlinux.org/rpc/?v=5&type=info&arg=", e.as_str()),
                    ),
                )
            },
            Some(_) => None,
        },
    }
}

/// Classifies a package from what the registries answered. Offline the answer
/// is `Offline`, whatever was answered.
pub fn resolve_package(config: &ExecConfig, seen: &Replies) -> (r: PackageOrigin)
    ensures
        r == origin_of(*config, *seen),
        config.offline ==> r == PackageOrigin::Offline,
{
    if config.offline {
        return PackageOrigin::Offline;
    }
    match seen.repo {
        Some(true) => PackageOrigin::Repo,
        _ => match seen.aur {
            Some(true) => PackageOrigin::Aur,
            _ => PackageOrigin::Unknown,
        },
    }
}

/// The installer that the flags and the package's name imply, without asking
/// a registry.
pub open spec fn installer_of(pkg: Seq<char>, c: ExecConfig) -> Seq<char> {
    if c.prefer_paru || has_suffix(pkg, "-bin"@) {
        "paru"@
    } else if c.no_sudo {
        "pacman"@
    } else {
        "sudo pacman"@
    }
}

/// The installer for `pkg` by flags and name alone.
pub fn installer_for(pkg: &str, config: &ExecConfig) -> (r: &'static str)
    ensures
        r@ == installer_of(pkg@, *config),
{
    if config.prefer_paru || ends_with(pkg, "-bin") {
        "paru"
    } else if config.no_sudo {
        "pacman"
    } else {
        "sudo pacman"
    }
}

/// The official tool, with or without the privilege wrapper.
pub open spec fn official_tool(c: ExecConfig) -> Seq<char> {
    if c.no_sudo {
        "pacman"@
    } else {
        "sudo pacman"@
    }
}

/// The tool for a package of known origin; none where resolution was not
/// attempted. An unknown package goes by its name.
pub open spec fn tool_for(origin: PackageOrigin, pkg: Seq<char>, c: ExecConfig) -> Option<
    Seq<char>,
> {
    match origin {
        PackageOrigin::Repo => Some(official_tool(c)),
        PackageOrigin::Aur => Some("paru"@),
        PackageOrigin::Unknown => if probably_aur(pkg) {
            Some("paru"@)
        } else {
            Some(official_tool(c))
        },
        PackageOrigin::Offline => None,
    }
}

/// Tool, flags and package, a blank between them.
pub open spec fn install_line(origin: PackageOrigin, pkg: Seq<char>, flags: Seq<char>, c: ExecConfig)
    -> Option<Seq<char>> {
    match tool_for(origin, pkg, c) {
        Some(tool) => Some(tool + seq![' '] + flags + seq![' '] + pkg),
        None => None,
    }
}

fn pick_tool(origin: PackageOrigin, pkg: &str, config: &ExecConfig) -> (r: Option<&'static str>)
    ensures
        r is Some <==> tool_for(origin, pkg@, *config) is Some,
        r matches Some(t) ==> tool_for(origin, pkg@, *config) == Some(t@),
{
    let official: &'static str = if config.no_sudo {
        "pacman"
    } else {
        "sudo pacman"
    };
    match origin {
        PackageOrigin::Repo => Some(official),
        PackageOrigin::Aur => Some("paru"),
        PackageOrigin::Unknown => if is_probably_aur(pkg) {
            Some("paru")
        } else {
            Some(official)
        },
        PackageOrigin::Offline => None,
    }
}

/// The install command for a package of the given origin: `None` exactly
/// where the origin is `Offline`.
pub fn build_install_command(pkg: &str, flags: &str, config: &ExecConfig, origin: PackageOrigin) -> (r:
    Option<String>)
    ensures
        r is Some <==> origin != PackageOrigin::Offline,
        r is Some <==> install_line(origin, pkg@, flags@, *config) is Some,
        r matches Some(line) ==> install_line(origin, pkg@, flags@, *config) == Some(line@),
{
    match pick_tool(origin, pkg, config) {
        Some(tool) => {
            let head: String = spaced(tool, flags);
            Some(spaced(head.as_str(), pkg))
        },
        None => None,
    }
}

/// The install command rebuilt for a package of the given origin, from the
/// words that followed the tool: all but the last of them are the flags.
pub fn resolve_installer(
    flags_and_pkg: &Vec<String>,
    pkg: &str,
    config: &ExecConfig,
    origin: PackageOrigin,
) -> (r: Option<String>)
    ensures
        r is Some <==> origin != PackageOrigin::Offline,
        r matches Some(line) ==> install_line(
            origin,
            pkg@,
            join_range(texts(flags_and_pkg@), 0, flags_and_pkg@.len() - 1),
            *config,
        ) == Some(line@),
{
    let flags: String = flags_of(flags_and_pkg);
    build_install_command(pkg, flags.as_str(), config, origin)
}

/// All words but the last, a blank between neighbours.
pub fn flags_of(words: &Vec<String>) -> (r: String)
    ensures
        r@ == join_range(texts(words@), 0, words@.len() - 1),
{
    let mut r: String = String::new();
    if words.len() < 2 {
        return r;
    }
    let stop: usize = words.len() - 1;
    let mut k: usize = 0;
    while k < stop
        invariant
            stop == words.len() - 1,
            k <= stop,
            r@ == join_range(texts(words@), 0, k as int),
        decreases stop - k,
    {
        if k > 0 {
            r.append(" ");
            proof {
                reveal_strlit(" ");
                assert(" "@ =~= seq![' ']);
            }
        }
        r.append(words[k].as_str());
        assert(texts(words@)[k as int] == words@[k as int]@);
        assert(r@ =~= join_range(texts(words@), 0, k + 1));
        k += 1;
    }
    r
}

} // verus!
