//! The remote model's answer: cleaned, validated, and bent to the prompt's intent.
//!
//! The model is a best-effort mapper and its choice of tool is not trusted.
//! Nothing here sends a request: the caller hands in what came back.

use vstd::prelude::*;
use vstd::string::*;
use crate::model::{AssistError, ExecConfig, Fault, PackageOrigin};
use crate::resolve::{
    aur_url, install_line, next_query, origin_of, pending, repo_url, resolve_installer,
    resolve_package, Pending, Query, Replies,
};
use crate::text::{
    contains, first_word, has_infix, has_prefix, join_from, join_range, joined, lines, list_has,
    lowered, same_text, split_lines, split_words, starts_with, strip, texts, to_lower, trimmed,
    unticked, words,
};
use crate::validate::{allowed_program, is_allowed_program, is_safe, leading_word, validate};

verus! {

/// The prompt, in lower case, begins with a verb that asks to start an
/// application.
pub open spec fn launch_prefixed(lower: Seq<char>) -> bool {
    has_prefix(lower, "open"@) || has_prefix(lower, "launch"@) || has_prefix(lower, "start"@)
}

/// The prompt, in lower case, speaks of word processing or office software.
pub open spec fn wants_office(lower: Seq<char>) -> bool {
    has_infix(lower, "word"@) || has_infix(lower, "office"@)
}

/// Whether a prompt in lower case asks to start an application.
pub fn starts_with_launch_verb(lower: &str) -> (r: bool)
    ensures
        r == launch_prefixed(lower@),
{
    starts_with(lower, "open") || starts_with(lower, "launch") || starts_with(lower, "start")
}

/// Whether a prompt asks to start an application, whatever its case.
pub fn is_launch_intent(prompt: &str) -> (r: bool)
    ensures
        r == launch_prefixed(lowered(prompt@)),
{
    let lower: String = to_lower(prompt);
    starts_with_launch_verb(lower.as_str())
}

/// A command that is a single bare word and no allowed program: most likely
/// the name of an application.
pub open spec fn bare_app_name(cmd: Seq<char>) -> bool {
    !allowed_program(first_word(cmd)) && !has_infix(cmd, " "@)
}

/// Whether a command is a bare application name, to be wrapped as a launch.
pub fn needs_launch_wrapper(cmd: &str) -> (r: bool)
    ensures
        r == bare_app_name(cmd@),
{
    let first: String = leading_word(cmd);
    if is_allowed_program(first.as_str()) {
        return false;
    }
    !contains(cmd, " ")
}

/// Where the arguments of an install command begin among its words: after
/// `sudo pacman`, `pacman` or `paru`, if the word there begins with `-S`.
/// `None`: the words are no install command.
pub open spec fn install_args_at(p: Seq<Seq<char>>) -> Option<int> {
    if p.len() >= 2 && p[0] == "sudo"@ && p[1] == "pacman"@ {
        if p.len() >= 3 && has_prefix(p[2], "-S"@) {
            Some(2)
        } else {
            None
        }
    } else if p.len() >= 2 && (p[0] == "pacman"@ || p[0] == "paru"@) && has_prefix(p[1], "-S"@) {
        Some(1)
    } else {
        None
    }
}

/// Where the arguments of an install command begin among `parts`.
pub fn install_args_start(parts: &Vec<String>) -> (r: Option<usize>)
    ensures
        r is Some <==> install_args_at(texts(parts@)) is Some,
        r matches Some(k) ==> install_args_at(texts(parts@)) == Some(k as int) && 1 <= k
            < parts@.len(),
{
    if parts.len() < 2 {
        return None;
    }
    assert(texts(parts@)[0] == parts@[0]@ && texts(parts@)[1] == parts@[1]@);
    if same_text(parts[0].as_str(), "sudo") && same_text(parts[1].as_str(), "pacman") {
        if parts.len() >= 3 {
            assert(texts(parts@)[2] == parts@[2]@);
            if starts_with(parts[2].as_str(), "-S") {
                return Some(2);
            }
        }
        return None;
    }
    if (same_text(parts[0].as_str(), "pacman") || same_text(parts[0].as_str(), "paru"))
        && starts_with(parts[1].as_str(), "-S") {
        return Some(1);
    }
    None
}

/// The install command `cmd` with its last word replaced by `new_pkg`, its
/// words a single blank apart. `None` exactly where `cmd` is no install
/// command.
pub fn rewrite_install_pkg(cmd: &str, new_pkg: &str) -> (r: Option<String>)
    ensures
        r is Some <==> install_args_at(words(cmd@)) is Some,
        r matches Some(line) ==> line@ == joined(words(cmd@).drop_last().push(new_pkg@)),
{
    let mut parts: Vec<String> = split_words(cmd);
    match install_args_start(&parts) {
        None => None,
        Some(_) => {
            let ghost before = texts(parts@);
            parts.pop();
            parts.push(String::from_str(new_pkg));
            assert(texts(parts@) =~= before.drop_last().push(new_pkg@));
            Some(join_from(&parts, 0))
        },
    }
}

/// The application that a command names: the second word of a launch, or the
/// last word of an install command.
pub open spec fn app_named_by(cmd: Seq<char>) -> Option<Seq<char>> {
    let p = words(cmd);
    if p.len() >= 2 && p[0] == "launch"@ {
        Some(p[1])
    } else if install_args_at(p) is Some {
        Some(p.last())
    } else {
        None
    }
}

/// The application named by the last of the first `k` commands that names
/// one.
pub open spec fn last_app_named(cmds: Seq<Seq<char>>, k: int) -> Option<Seq<char>>
    decreases k,
{
    if k <= 0 || k > cmds.len() {
        None
    } else {
        match app_named_by(cmds[k - 1]) {
            Some(app) => Some(app),
            None => last_app_named(cmds, k - 1),
        }
    }
}

/// The application that `cmd` names, if it names one.
pub fn app_name_of(cmd: &str) -> (r: Option<String>)
    ensures
        r is Some <==> app_named_by(cmd@) is Some,
        r matches Some(app) ==> app_named_by(cmd@) == Some(app@),
{
    let parts: Vec<String> = split_words(cmd);
    if parts.len() >= 2 {
        assert(texts(parts@)[0] == parts@[0]@ && texts(parts@)[1] == parts@[1]@);
        if same_text(parts[0].as_str(), "launch") {
            return Some(parts[1].clone());
        }
    }
    match install_args_start(&parts) {
        Some(_) => {
            let last: usize = parts.len() - 1;
            assert(texts(parts@).last() == parts@[last as int]@);
            Some(parts[last].clone())
        },
        None => None,
    }
}

/// The application to launch after a list of commands: the one named by the
/// last command that names any.
pub fn extract_app_name_from_install(cmds: &Vec<String>) -> (r: Option<String>)
    ensures
        r is Some <==> last_app_named(texts(cmds@), cmds@.len() as int) is Some,
        r matches Some(app) ==> last_app_named(texts(cmds@), cmds@.len() as int) == Some(app@),
{
    let mut k: usize = cmds.len();
    while k > 0
        invariant
            k <= cmds.len(),
            last_app_named(texts(cmds@), k as int) == last_app_named(
                texts(cmds@),
                cmds@.len() as int,
            ),
        decreases k,
    {
        assert(texts(cmds@)[k - 1] == cmds@[k - 1]@);
        match app_name_of(cmds[k - 1].as_str()) {
            Some(app) => {
                return Some(app);
            },
            None => {},
        }
        k -= 1;
    }
    None
}

/// A command that brings in the helper tool `yay`, which is not wanted.
pub open spec fn invokes_yay(cmd: Seq<char>) -> bool {
    has_infix(cmd, " yay"@) || has_prefix(cmd, "yay "@) || cmd == "yay"@
}

/// The form that the prompt's intent gives a command: its package replaced
/// by the office suite where the prompt asks for one and the command
/// installs; wrapped as a launch where the prompt asks to start something and
/// the command is a bare name; else the command as it is.
pub open spec fn reshaped(cmd: Seq<char>, office: bool, launch: bool) -> Seq<char> {
    if office && install_args_at(words(cmd)) is Some {
        joined(words(cmd).drop_last().push("libreoffice-fresh"@))
    } else if launch && bare_app_name(cmd) {
        "launch "@ + cmd
    } else {
        cmd
    }
}

/// What becomes of one command: it is dropped (`None`) if it brings in `yay`,
/// or would do so in the form that the intent gives it; else it takes that
/// form.
pub open spec fn adjusted_one(cmd: Seq<char>, office: bool, launch: bool) -> Option<Seq<char>> {
    if invokes_yay(cmd) || invokes_yay(reshaped(cmd, office, launch)) {
        None
    } else {
        Some(reshaped(cmd, office, launch))
    }
}

/// The first `k` commands, each adjusted, in order.
pub open spec fn adjusted_upto(cmds: Seq<Seq<char>>, k: int, office: bool, launch: bool) -> Seq<
    Seq<char>,
>
    decreases k,
{
    if k <= 0 || k > cmds.len() {
        Seq::<Seq<char>>::empty()
    } else {
        let prev = adjusted_upto(cmds, k - 1, office, launch);
        match adjusted_one(cmds[k - 1], office, launch) {
            Some(c) => prev.push(c),
            None => prev,
        }
    }
}

/// The commands adjusted to the prompt's intent. What brings in `yay` is
/// dropped without exception, so that nothing may be left.
pub open spec fn adjusted(cmds: Seq<Seq<char>>, lower: Seq<char>) -> Seq<Seq<char>> {
    adjusted_upto(cmds, cmds.len() as int, wants_office(lower), launch_prefixed(lower))
}

proof fn lemma_adjusted_upto(cmds: Seq<Seq<char>>, k: int, office: bool, launch: bool)
    ensures
        forall|i: int|
            0 <= i < adjusted_upto(cmds, k, office, launch).len() ==> !invokes_yay(
                #[trigger] adjusted_upto(cmds, k, office, launch)[i],
            ),
    decreases k,
{
    if 0 < k <= cmds.len() {
        lemma_adjusted_upto(cmds, k - 1, office, launch);
        let prev = adjusted_upto(cmds, k - 1, office, launch);
        let out = adjusted_upto(cmds, k, office, launch);
        assert forall|i: int| 0 <= i < out.len() implies !invokes_yay(#[trigger] out[i]) by {
            if i < prev.len() {
                assert(out[i] == prev[i]);
            } else {
                assert(out[i] == reshaped(cmds[k - 1], office, launch));
            }
        }
    }
}

/// No adjusted command brings in `yay`, whatever the commands and the prompt.
pub proof fn law_adjusted_is_free_of_yay(cmds: Seq<Seq<char>>, lower: Seq<char>)
    ensures
        forall|i: int|
            0 <= i < adjusted(cmds, lower).len() ==> !invokes_yay(
                #[trigger] adjusted(cmds, lower)[i],
            ),
{
    lemma_adjusted_upto(cmds, cmds.len() as int, wants_office(lower), launch_prefixed(lower));
}

/// Whether a command brings in `yay`.
pub fn brings_yay(cmd: &str) -> (r: bool)
    ensures
        r == invokes_yay(cmd@),
{
    contains(cmd, " yay") || starts_with(cmd, "yay ") || same_text(cmd, "yay")
}

fn reshape(cmd: &str, office: bool, launch: bool) -> (r: String)
    ensures
        r@ == reshaped(cmd@, office, launch),
{
    if office {
        match rewrite_install_pkg(cmd, "libreoffice-fresh") {
            Some(rewritten) => {
                return rewritten;
            },
            None => {},
        }
    }
    if launch && needs_launch_wrapper(cmd) {
        return String::from_str("launch ").concat(cmd);
    }
    String::from_str(cmd)
}

fn adjust_one(cmd: &str, office: bool, launch: bool) -> (r: Option<String>)
    ensures
        r is Some <==> adjusted_one(cmd@, office, launch) is Some,
        r matches Some(c) ==> adjusted_one(cmd@, office, launch) == Some(c@),
{
    if brings_yay(cmd) {
        return None;
    }
    let shaped: String = reshape(cmd, office, launch);
    if brings_yay(shaped.as_str()) {
        return None;
    }
    Some(shaped)
}

/// Adjusts commands to a prompt that is already in lower case. None of the
/// commands handed back brings in `yay`; the list may be empty.
pub fn adjust_lowered(cmds: Vec<String>, lower: &str) -> (r: Vec<String>)
    ensures
        texts(r@) == adjusted(texts(cmds@), lower@),
        forall|i: int| 0 <= i < r@.len() ==> !invokes_yay(#[trigger] texts(r@)[i]),
{
    let office: bool = contains(lower, "word") || contains(lower, "office");
    let launch: bool = starts_with_launch_verb(lower);
    let mut out: Vec<String> = Vec::new();
    let mut k: usize = 0;
    assert(texts(out@) =~= Seq::<Seq<char>>::empty());
    while k < cmds.len()
        invariant
            k <= cmds.len(),
            texts(out@) == adjusted_upto(texts(cmds@), k as int, office, launch),
        decreases cmds.len() - k,
    {
        let ghost before = texts(out@);
        assert(texts(cmds@)[k as int] == cmds@[k as int]@);
        match adjust_one(cmds[k].as_str(), office, launch) {
            Some(c) => {
                out.push(c);
                assert(texts(out@) =~= before.push(c@));
            },
            None => {},
        }
        k += 1;
    }
    proof {
        law_adjusted_is_free_of_yay(texts(cmds@), lower@);
    }
    out
}

/// Adjusts the validated commands to the prompt's intent. None of the
/// commands handed back brings in `yay`; the list may be empty.
pub fn adjust_commands_for_intent(cmds: Vec<String>, prompt: &str) -> (r: Vec<String>)
    ensures
        texts(r@) == adjusted(texts(cmds@), lowered(prompt@)),
        forall|i: int| 0 <= i < r@.len() ==> !invokes_yay(#[trigger] texts(r@)[i]),
{
    let lower: String = to_lower(prompt);
    adjust_lowered(cmds, lower.as_str())
}

/// The package that an install command names, which is to be resolved before
/// the command is rebuilt: its last word.
pub fn install_target(cmd: &str) -> (r: Option<String>)
    ensures
        r is Some <==> install_args_at(words(cmd@)) is Some,
        r matches Some(pkg) ==> pkg@ == words(cmd@).last(),
{
    let parts: Vec<String> = split_words(cmd);
    match install_args_start(&parts) {
        Some(_) => {
            let last: usize = parts.len() - 1;
            assert(texts(parts@).last() == parts@[last as int]@);
            Some(parts[last].clone())
        },
        None => None,
    }
}

/// An install command rebuilt for the origin of its package: the tool that
/// the origin asks for, the flags as they were, the package. Any other
/// command, and any command where resolution was not attempted, stays.
pub open spec fn rebuilt(cmd: Seq<char>, c: ExecConfig, origin: PackageOrigin) -> Seq<char> {
    let p = words(cmd);
    match install_args_at(p) {
        Some(k) => {
            let tail = p.subrange(k, p.len() as int);
            match install_line(origin, p.last(), join_range(tail, 0, tail.len() - 1), c) {
                Some(line) => line,
                None => cmd,
            }
        },
        None => cmd,
    }
}

fn tail_from(parts: &Vec<String>, k: usize) -> (r: Vec<String>)
    requires
        k <= parts@.len(),
    ensures
        texts(r@) == texts(parts@).subrange(k as int, parts@.len() as int),
{
    let mut r: Vec<String> = Vec::new();
    let mut i: usize = k;
    assert(texts(r@) =~= texts(parts@).subrange(k as int, k as int));
    while i < parts.len()
        invariant
            k <= i <= parts.len(),
            texts(r@) == texts(parts@).subrange(k as int, i as int),
        decreases parts.len() - i,
    {
        let ghost before = texts(r@);
        r.push(parts[i].clone());
        assert(texts(r@) =~= before.push(parts@[i as int]@));
        assert(texts(r@) =~= texts(parts@).subrange(k as int, i + 1));
        i += 1;
    }
    r
}

/// Rebuilds an install command for the origin of its package, which the
/// caller has resolved.
pub fn rewrite_install_with_resolution(cmd: String, config: &ExecConfig, origin: PackageOrigin) -> (r:
    String)
    ensures
        r@ == rebuilt(cmd@, *config, origin),
        origin == PackageOrigin::Offline ==> r@ == cmd@,
{
    let parts: Vec<String> = split_words(cmd.as_str());
    match install_args_start(&parts) {
        Some(k) => {
            let last: usize = parts.len() - 1;
            assert(texts(parts@).last() == parts@[last as int]@);
            let tail: Vec<String> = tail_from(&parts, k);
            match resolve_installer(&tail, parts[last].as_str(), config, origin) {
                Some(line) => line,
                None => cmd,
            }
        },
        None => cmd,
    }
}

/// What is to be done next about one command of the answer.
#[derive(Debug)]
pub enum RewriteStep {
    /// A registry is to be asked about the command's package.
    Ask(Query),
    /// The command in its final form.
    Ready(String),
}

/// The next step for one command, given what the registries answered about
/// its package so far. A command that installs nothing is ready as it is.
/// For an install command the registries are asked in turn, and once they
/// have answered the command is rebuilt for the origin that the answers give.
pub fn rewrite_step(cmd: &str, config: &ExecConfig, seen: &Replies) -> (r: RewriteStep)
    ensures
        match install_args_at(words(cmd@)) {
            None => r matches RewriteStep::Ready(c) && c@ == cmd@,
            Some(_) => match pending(*config, *seen) {
                Pending::Nothing => r matches RewriteStep::Ready(c) && c@ == rebuilt(
                    cmd@,
                    *config,
                    origin_of(*config, *seen),
                ),
                Pending::Repo => r matches RewriteStep::Ask(Query::Repo(u)) && u@ == repo_url(
                    words(cmd@).last(),
                ),
                Pending::Aur => r matches RewriteStep::Ask(Query::Aur(u)) && u@ == aur_url(
                    words(cmd@).last(),
                ),
            },
        },
        config.offline ==> (r matches RewriteStep::Ready(c) && c@ == cmd@),
{
    match install_target(cmd) {
        None => RewriteStep::Ready(String::from_str(cmd)),
        Some(pkg) => match next_query(pkg.as_str(), config, seen) {
            Some(query) => RewriteStep::Ask(query),
            None => {
                let origin: PackageOrigin = resolve_package(config, seen);
                RewriteStep::Ready(
                    rewrite_install_with_resolution(String::from_str(cmd), config, origin),
                )
            },
        },
    }
}

/// A line of the answer without the back-ticks, then the spaces, around it.
pub open spec fn cleaned(line: Seq<char>) -> Seq<char> {
    trimmed(unticked(line))
}

/// The first `k` lines cleaned, without the empty ones, each kept where it
/// first occurs.
pub open spec fn distinct_upto(ls: Seq<Seq<char>>, k: int) -> Seq<Seq<char>>
    decreases k,
{
    if k <= 0 || k > ls.len() {
        Seq::<Seq<char>>::empty()
    } else {
        let prev = distinct_upto(ls, k - 1);
        let c = cleaned(ls[k - 1]);
        if c.len() == 0 || prev.contains(c) {
            prev
        } else {
            prev.push(c)
        }
    }
}

/// The candidate commands in an answer: its lines, cleaned, without empty
/// lines and repetitions, in the order of their first occurrence.
pub open spec fn sanitized(content: Seq<char>) -> Seq<Seq<char>> {
    let ls = lines(trimmed(content));
    distinct_upto(ls, ls.len() as int)
}

/// The candidate commands in an answer.
pub fn sanitize_response(content: &str) -> (out: Vec<String>)
    ensures
        texts(out@) == sanitized(content@),
{
    let ls: Vec<String> = split_lines(strip(content, false));
    let mut out: Vec<String> = Vec::new();
    let mut k: usize = 0;
    assert(texts(out@) =~= Seq::<Seq<char>>::empty());
    while k < ls.len()
        invariant
            k <= ls.len(),
            texts(out@) == distinct_upto(texts(ls@), k as int),
        decreases ls.len() - k,
    {
        let ghost before = texts(out@);
        assert(texts(ls@)[k as int] == ls@[k as int]@);
        let clean: &str = strip(strip(ls[k].as_str(), true), false);
        if !clean.is_empty() && !list_has(&out, clean) {
            out.push(String::from_str(clean));
            assert(texts(out@) =~= before.push(clean@));
        }
        k += 1;
    }
    out
}

proof fn lemma_distinct_upto(ls: Seq<Seq<char>>, k: int)
    requires
        0 <= k <= ls.len(),
    ensures
        forall|i: int, j: int|
            #![trigger distinct_upto(ls, k)[i], distinct_upto(ls, k)[j]]
            0 <= i < j < distinct_upto(ls, k).len() ==> distinct_upto(ls, k)[i] != distinct_upto(
                ls,
                k,
            )[j],
        forall|i: int|
            0 <= i < distinct_upto(ls, k).len() ==> (#[trigger] distinct_upto(ls, k)[i]).len() > 0,
        forall|i: int|
            0 <= i < distinct_upto(ls, k).len() ==> exists|m: int|
                0 <= m < k && #[trigger] distinct_upto(ls, k)[i] == cleaned(#[trigger] ls[m]),
        forall|m: int|
            0 <= m < k && cleaned(#[trigger] ls[m]).len() > 0 ==> distinct_upto(ls, k).contains(
                cleaned(ls[m]),
            ),
    decreases k,
{
    if k > 0 {
        lemma_distinct_upto(ls, k - 1);
        let prev = distinct_upto(ls, k - 1);
        let out = distinct_upto(ls, k);
        let c = cleaned(ls[k - 1]);
        assert forall|i: int| 0 <= i < out.len() implies exists|m: int|
            0 <= m < k && #[trigger] out[i] == cleaned(#[trigger] ls[m]) by {
            if i < prev.len() {
                let m = choose|m: int| 0 <= m < k - 1 && prev[i] == cleaned(#[trigger] ls[m]);
                assert(0 <= m < k && out[i] == cleaned(ls[m]));
            } else {
                assert(out[i] == cleaned(ls[k - 1]));
            }
        }
        assert forall|m: int| 0 <= m < k && cleaned(#[trigger] ls[m]).len() > 0 implies out.contains(
            cleaned(ls[m]),
        ) by {
            if m < k - 1 {
                assert(prev.contains(cleaned(ls[m])));
                let i = choose|i: int| 0 <= i < prev.len() && prev[i] == cleaned(ls[m]);
                assert(out[i] == cleaned(ls[m]));
            } else if prev.contains(c) {
                let i = choose|i: int| 0 <= i < prev.len() && prev[i] == c;
                assert(out[i] == c);
            } else {
                assert(out[out.len() - 1] == c);
            }
        }
    }
}

/// The positions, among the first `k` lines, of the lines that are kept:
/// those whose cleaned form is not empty and did not occur before.
pub open spec fn kept_upto(ls: Seq<Seq<char>>, k: int) -> Seq<int>
    decreases k,
{
    if k <= 0 || k > ls.len() {
        Seq::<int>::empty()
    } else {
        let c = cleaned(ls[k - 1]);
        if c.len() == 0 || distinct_upto(ls, k - 1).contains(c) {
            kept_upto(ls, k - 1)
        } else {
            kept_upto(ls, k - 1).push(k - 1)
        }
    }
}

proof fn lemma_kept_upto(ls: Seq<Seq<char>>, k: int)
    requires
        0 <= k <= ls.len(),
    ensures
        kept_upto(ls, k).len() == distinct_upto(ls, k).len(),
        forall|i: int|
            0 <= i < kept_upto(ls, k).len() ==> 0 <= #[trigger] kept_upto(ls, k)[i] < k
                && distinct_upto(ls, k)[i] == cleaned(ls[kept_upto(ls, k)[i]]),
        forall|i: int, j: int|
            #![trigger kept_upto(ls, k)[i], kept_upto(ls, k)[j]]
            0 <= i < j < kept_upto(ls, k).len() ==> kept_upto(ls, k)[i] < kept_upto(ls, k)[j],
        forall|i: int, m: int|
            #![trigger kept_upto(ls, k)[i], ls[m]]
            0 <= i < kept_upto(ls, k).len() && 0 <= m < kept_upto(ls, k)[i] ==> cleaned(ls[m])
                != cleaned(ls[kept_upto(ls, k)[i]]),
    decreases k,
{
    if k > 0 {
        lemma_kept_upto(ls, k - 1);
        lemma_distinct_upto(ls, k - 1);
        let prev = distinct_upto(ls, k - 1);
        let c = cleaned(ls[k - 1]);
        if !(c.len() == 0 || prev.contains(c)) {
            assert forall|i: int, m: int|
                #![trigger kept_upto(ls, k)[i], ls[m]]
                0 <= i < kept_upto(ls, k).len() && 0 <= m < kept_upto(ls, k)[i] implies cleaned(
                ls[m],
            ) != cleaned(ls[kept_upto(ls, k)[i]]) by {
                if i == kept_upto(ls, k).len() - 1 {
                    if cleaned(ls[m]) == c {
                        assert(prev.contains(cleaned(ls[m])));
                    }
                }
            }
        }
    }
}

/// The candidates of an answer stand in the order of the lines they come
/// from: candidate `i` is the cleaned form of line `kept[i]`, the positions
/// `kept` rise, and no line before `kept[i]` has the same cleaned form.
pub proof fn law_sanitized_keeps_order(content: Seq<char>)
    ensures
        ({
            let ls = lines(trimmed(content));
            let out = sanitized(content);
            let kept = kept_upto(ls, ls.len() as int);
            &&& kept.len() == out.len()
            &&& forall|i: int|
                0 <= i < kept.len() ==> 0 <= #[trigger] kept[i] < ls.len() && out[i] == cleaned(
                    ls[kept[i]],
                )
            &&& forall|i: int, j: int|
                #![trigger kept[i], kept[j]]
                0 <= i < j < kept.len() ==> kept[i] < kept[j]
            &&& forall|i: int, m: int|
                #![trigger kept[i], ls[m]]
                0 <= i < kept.len() && 0 <= m < kept[i] ==> cleaned(ls[m]) != out[i]
        }),
{
    let ls = lines(trimmed(content));
    lemma_kept_upto(ls, ls.len() as int);
}

/// The candidates of an answer are cleaned lines of it, none of them empty
/// and no two of them equal; and every cleaned line that is not empty is
/// among them.
pub proof fn law_sanitized_is_distinct(content: Seq<char>)
    ensures
        forall|i: int, j: int|
            #![trigger sanitized(content)[i], sanitized(content)[j]]
            0 <= i < j < sanitized(content).len() ==> sanitized(content)[i] != sanitized(
                content,
            )[j],
        forall|i: int|
            0 <= i < sanitized(content).len() ==> (#[trigger] sanitized(content)[i]).len() > 0,
        forall|i: int|
            0 <= i < sanitized(content).len() ==> exists|m: int|
                0 <= m < lines(trimmed(content)).len() && #[trigger] sanitized(content)[i]
                    == cleaned(#[trigger] lines(trimmed(content))[m]),
        forall|m: int|
            0 <= m < lines(trimmed(content)).len() && cleaned(
                #[trigger] lines(trimmed(content))[m],
            ).len() > 0 ==> sanitized(content).contains(cleaned(lines(trimmed(content))[m])),
{
    let ls = lines(trimmed(content));
    lemma_distinct_upto(ls, ls.len() as int);
}

/// Those of the first `k` commands that pass validation, in order.
pub open spec fn safe_upto(cmds: Seq<Seq<char>>, k: int) -> Seq<Seq<char>>
    decreases k,
{
    if k <= 0 || k > cmds.len() {
        Seq::<Seq<char>>::empty()
    } else {
        let prev = safe_upto(cmds, k - 1);
        if is_safe(cmds[k - 1]) {
            prev.push(cmds[k - 1])
        } else {
            prev
        }
    }
}

/// The commands that pass validation, in order.
pub open spec fn safe_ones(cmds: Seq<Seq<char>>) -> Seq<Seq<char>> {
    safe_upto(cmds, cmds.len() as int)
}

proof fn lemma_none_safe(cmds: Seq<Seq<char>>, k: int)
    requires
        forall|i: int| 0 <= i < cmds.len() ==> !is_safe(#[trigger] cmds[i]),
    ensures
        safe_upto(cmds, k).len() == 0,
    decreases k,
{
    if 0 < k <= cmds.len() {
        lemma_none_safe(cmds, k - 1);
    }
}

/// Keeps the commands that pass validation. Every command kept is safe.
pub fn keep_safe(cmds: Vec<String>) -> (out: Vec<String>)
    ensures
        texts(out@) == safe_ones(texts(cmds@)),
        forall|i: int| 0 <= i < out@.len() ==> is_safe(#[trigger] texts(out@)[i]),
{
    let mut out: Vec<String> = Vec::new();
    let mut k: usize = 0;
    assert(texts(out@) =~= Seq::<Seq<char>>::empty());
    while k < cmds.len()
        invariant
            k <= cmds.len(),
            texts(out@) == safe_upto(texts(cmds@), k as int),
            forall|i: int| 0 <= i < out@.len() ==> is_safe(#[trigger] texts(out@)[i]),
        decreases cmds.len() - k,
    {
        let ghost before = texts(out@);
        assert(texts(cmds@)[k as int] == cmds@[k as int]@);
        if validate(cmds[k].as_str()).is_ok() {
            out.push(cmds[k].clone());
            assert(texts(out@) =~= before.push(cmds@[k as int]@));
        }
        k += 1;
    }
    out
}

/// What the remote service sent back: the text of each choice, where it has
/// one.
#[derive(Debug)]
pub struct ChatReply {
    pub choices: Vec<Option<String>>,
}

impl ChatReply {
    /// The text of the first choice. `None`: no choice at all. `Some(None)`:
    /// a choice without text.
    pub open spec fn first_content(&self) -> Option<Option<Seq<char>>> {
        if self.choices@.len() == 0 {
            None
        } else {
            match self.choices@[0] {
                Some(t) => Some(Some(t@)),
                None => Some(None),
            }
        }
    }
}

/// Why the remote model may not be asked, if it may not: network use is
/// forbidden, or there is no credential.
pub open spec fn refusal(c: ExecConfig, has_key: bool) -> Option<Fault> {
    if c.offline {
        Some(Fault::CommandFailed("offline mode: LLM suggestions disabled"@))
    } else if !has_key {
        Some(Fault::CommandFailed("OPENAI_API_KEY not set"@))
    } else {
        None
    }
}

/// The instruction that goes before the prompt in every request.
pub fn system_instruction() -> (r: &'static str)
    ensures
        r@
            == "You are an Arch Linux expert. Respond with ONLY shell commands, one per line. Use pacman for repo packages; use paru for AUR packages (e.g., *-bin). Do not suggest generic shells (bash/sh) as commands. Never use dangerous operators (rm, dd, mkfs, pipes, redirects). Keep responses concise and focused on the requested task."@,
{
    "You are an Arch Linux expert. Respond with ONLY shell commands, one per line. Use pacman for repo packages; use paru for AUR packages (e.g., *-bin). Do not suggest generic shells (bash/sh) as commands. Never use dangerous operators (rm, dd, mkfs, pipes, redirects). Keep responses concise and focused on the requested task."
}

/// The model to ask: the one chosen in the environment, else the default.
pub fn model_name(chosen: Option<String>) -> (r: String)
    ensures
        r@ == (match chosen {
            Some(m) => m@,
            None => "gpt-4o-mini"@,
        }),
{
    match chosen {
        Some(m) => m,
        None => String::from_str("gpt-4o-mini"),
    }
}

fn failed(msg: &str) -> (e: AssistError)
    ensures
        e.fault() == Fault::CommandFailed(msg@),
{
    AssistError::CommandFailed(String::from_str(msg))
}

/// Decides, before anything is sent, whether the remote model may be asked.
pub fn llm_precheck(config: &ExecConfig, has_key: bool) -> (r: Result<(), AssistError>)
    ensures
        r is Ok <==> refusal(*config, has_key) is None,
        r matches Err(e) ==> refusal(*config, has_key) == Some(e.fault()),
        config.offline ==> r is Err,
{
    if config.offline {
        return Err(failed("offline mode: LLM suggestions disabled"));
    }
    if !has_key {
        return Err(failed("OPENAI_API_KEY not set"));
    }
    Ok(())
}

/// The commands that an answer yields for a prompt in lower case, or why it
/// yields none. An answer of which nothing is left at any step fails: an empty
/// list is never handed on.
pub open spec fn candidates(first: Option<Option<Seq<char>>>, lower: Seq<char>) -> Result<
    Seq<Seq<char>>,
    Fault,
> {
    match first {
        None => Err(Fault::CommandFailed("LLM returned no choices"@)),
        Some(None) => Err(Fault::CommandFailed("LLM returned no content"@)),
        Some(Some(content)) => if trimmed(content).len() == 0 {
            Err(Fault::CommandFailed("LLM returned only whitespace"@))
        } else if sanitized(content).len() == 0 {
            Err(Fault::CommandFailed("LLM returned an empty command list"@))
        } else if safe_ones(sanitized(content)).len() == 0 {
            Err(
                Fault::CommandFailed(
                    "LLM produced no safe commands (blocked or unsupported)"@,
                ),
            )
        } else if adjusted(safe_ones(sanitized(content)), lower).len() == 0 {
            Err(Fault::CommandFailed("LLM produced no usable commands"@))
        } else {
            Ok(adjusted(safe_ones(sanitized(content)), lower))
        },
    }
}

/// An answer none of whose candidates passes validation yields no command:
/// it fails as a whole, so that nothing of it can be run.
pub proof fn law_unsafe_answer_fails(content: Seq<char>, lower: Seq<char>)
    requires
        forall|i: int|
            0 <= i < sanitized(content).len() ==> !is_safe(#[trigger] sanitized(content)[i]),
    ensures
        candidates(Some(Some(content)), lower) matches Err(Fault::CommandFailed(_)),
{
    lemma_none_safe(sanitized(content), sanitized(content).len() as int);
}

/// What a result that carries commands holds.
pub open spec fn commands_or_fault(r: Result<Vec<String>, AssistError>) -> Result<
    Seq<Seq<char>>,
    Fault,
> {
    match r {
        Ok(v) => Ok(texts(v@)),
        Err(e) => Err(e.fault()),
    }
}

/// The commands that an answer yields for a prompt in lower case: cleaned,
/// validated and adjusted. It fails where the answer holds no text, no command
/// that passes validation, or none that is left after the adjustment. What it
/// yields is never empty, and none of it brings in `yay`.
pub fn candidates_lowered(reply: &ChatReply, lower: &str) -> (r: Result<Vec<String>, AssistError>)
    ensures
        commands_or_fault(r) == candidates(reply.first_content(), lower@),
        r matches Ok(v) ==> v@.len() > 0 && forall|i: int|
            0 <= i < v@.len() ==> !invokes_yay(#[trigger] texts(v@)[i]),
{
    if reply.choices.len() == 0 {
        return Err(failed("LLM returned no choices"));
    }
    match &reply.choices[0] {
        None => Err(failed("LLM returned no content")),
        Some(content) => {
            if strip(content.as_str(), false).is_empty() {
                return Err(failed("LLM returned only whitespace"));
            }
            let cmds: Vec<String> = sanitize_response(content.as_str());
            if cmds.len() == 0 {
                return Err(failed("LLM returned an empty command list"));
            }
            let safe: Vec<String> = keep_safe(cmds);
            if safe.len() == 0 {
                return Err(failed("LLM produced no safe commands (blocked or unsupported)"));
            }
            let adjusted: Vec<String> = adjust_lowered(safe, lower);
            if adjusted.len() == 0 {
                return Err(failed("LLM produced no usable commands"));
            }
            Ok(adjusted)
        },
    }
}

/// The commands that an answer yields for a prompt.
pub fn llm_candidates(reply: &ChatReply, prompt: &str) -> (r: Result<Vec<String>, AssistError>)
    ensures
        commands_or_fault(r) == candidates(reply.first_content(), lowered(prompt@)),
{
    let lower: String = to_lower(prompt);
    candidates_lowered(reply, lower.as_str())
}

/// One of the commands is an explicit launch.
pub open spec fn has_launch(cmds: Seq<Seq<char>>) -> bool {
    exists|i: int| 0 <= i < cmds.len() && has_prefix(#[trigger] cmds[i], "launch "@)
}

/// The commands with a launch of the installed application at their end,
/// where the prompt asks to start something, no command launches anything yet
/// and one of them names an application; else the commands as they are.
pub open spec fn with_launch(cmds: Seq<Seq<char>>, launch: bool) -> Seq<Seq<char>> {
    if launch && !has_launch(cmds) {
        match last_app_named(cmds, cmds.len() as int) {
            Some(app) => cmds.push("launch "@ + app),
            None => cmds,
        }
    } else {
        cmds
    }
}

fn any_launch(cmds: &Vec<String>) -> (r: bool)
    ensures
        r == has_launch(texts(cmds@)),
{
    let mut i: usize = 0;
    while i < cmds.len()
        invariant
            i <= cmds.len(),
            forall|j: int| 0 <= j < i ==> !has_prefix(#[trigger] texts(cmds@)[j], "launch "@),
        decreases cmds.len() - i,
    {
        assert(texts(cmds@)[i as int] == cmds@[i as int]@);
        if starts_with(cmds[i].as_str(), "launch ") {
            return true;
        }
        i += 1;
    }
    false
}

/// Adds the launch step where `launch` says that the prompt asks for one.
pub fn finish_with_launch(cmds: Vec<String>, launch: bool) -> (r: Vec<String>)
    ensures
        texts(r@) == with_launch(texts(cmds@), launch),
{
    if launch && !any_launch(&cmds) {
        match extract_app_name_from_install(&cmds) {
            Some(app) => {
                let ghost before = texts(cmds@);
                let mut out: Vec<String> = cmds;
                let step: String = String::from_str("launch ").concat(app.as_str());
                out.push(step);
                assert(texts(out@) =~= before.push("launch "@ + app@));
                return out;
            },
            None => {},
        }
    }
    cmds
}

/// Adds the launch step where the prompt asks to start an application.
pub fn llm_finish(cmds: Vec<String>, prompt: &str) -> (r: Vec<String>)
    ensures
        texts(r@) == with_launch(texts(cmds@), launch_prefixed(lowered(prompt@))),
{
    let launch: bool = is_launch_intent(prompt);
    finish_with_launch(cmds, launch)
}

} // verus!
