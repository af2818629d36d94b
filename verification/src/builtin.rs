//! The rule table: prompts that are answered without asking anyone.

use vstd::prelude::*;
use vstd::string::*;
use crate::model::{pairs, sugg, ExecConfig, PackageOrigin, Suggestion};
use crate::resolve::{
    build_install_command, installer_for, installer_of, resolve_package, Replies,
};
use crate::text::{
    contains, first_word, has_infix, has_prefix, join_from, join_range, lowered, occurs_at,
    same_text, split_words, starts_with, texts, to_lower, words,
};

verus! {

/// The command starts with a package tool.
pub open spec fn targets_package_tool(cmd: Seq<char>) -> bool {
    has_prefix(cmd, "sudo pacman "@) || has_prefix(cmd, "pacman "@) || has_prefix(cmd, "paru "@)
}

/// The command with `--noconfirm` appended, where the user chose to confirm
/// nothing, the command starts with a package tool and does not carry the flag
/// yet; else the command as it is.
pub open spec fn with_pkg_flags(cmd: Seq<char>, c: ExecConfig) -> Seq<char> {
    if c.yes && targets_package_tool(cmd) && !has_infix(cmd, "--noconfirm"@) {
        cmd + " --noconfirm"@
    } else {
        cmd
    }
}

/// Appends `--noconfirm` where it belongs.
pub fn apply_pkg_flags(cmd: String, config: &ExecConfig) -> (r: String)
    ensures
        r@ == with_pkg_flags(cmd@, *config),
{
    if config.yes && (starts_with(cmd.as_str(), "sudo pacman ") || starts_with(
        cmd.as_str(),
        "pacman ",
    ) || starts_with(cmd.as_str(), "paru ")) && !contains(cmd.as_str(), "--noconfirm") {
        return cmd.concat(" --noconfirm");
    }
    cmd
}

/// The flag is added once: a command that went through the step comes out of
/// a second pass as it went in.
pub proof fn law_flags_added_once(cmd: Seq<char>, c: ExecConfig)
    ensures
        with_pkg_flags(with_pkg_flags(cmd, c), c) == with_pkg_flags(cmd, c),
{
    reveal_strlit(" --noconfirm");
    reveal_strlit("--noconfirm");
    let once = with_pkg_flags(cmd, c);
    if once != cmd {
        let i = cmd.len() as int + 1;
        assert(once.subrange(i, i + 11) =~= "--noconfirm"@);
        assert(occurs_at(once, "--noconfirm"@, i));
    }
}

/// The command that installs `pkg` with `installer`, if it is not there yet.
pub open spec fn install_command(installer: Seq<char>, pkg: Seq<char>, c: ExecConfig) -> Seq<char> {
    with_pkg_flags(installer + " -S --needed "@ + pkg, c)
}

/// The suggestion to install `pkg` with `installer`.
pub fn install_cmd(installer: &str, pkg: &str, config: &ExecConfig, reason: &'static str) -> (r:
    Suggestion)
    ensures
        r.pair() == sugg(install_command(installer@, pkg@, *config), reason@),
{
    let line: String = String::from_str(installer).concat(" -S --needed ").concat(pkg);
    Suggestion::new(apply_pkg_flags(line, config), reason)
}

/// What follows the first word, a single blank between the words.
pub open spec fn rest_words(s: Seq<char>) -> Seq<char> {
    join_range(words(s), 1, words(s).len() as int)
}

/// The command that removes `pkg`: the official tool also removes what
/// nothing else needs and the configuration.
pub open spec fn removal_command(pkg: Seq<char>, c: ExecConfig) -> Seq<char> {
    let installer = installer_of(pkg, c);
    if installer == "paru"@ {
        with_pkg_flags(installer + " -R "@ + pkg, c)
    } else {
        with_pkg_flags(installer + " -Rsn "@ + pkg, c)
    }
}

/// The command of a system-wide package action.
pub open spec fn system_command(action: Seq<char>, c: ExecConfig) -> Seq<char> {
    with_pkg_flags(installer_of("base"@, c) + action, c)
}

/// What the rule table answers for a prompt in lower case: the first rule
/// that matches decides. `None`: no rule matches, or the rule leaves the
/// prompt to the remote model.
pub open spec fn translation(lower: Seq<char>, c: ExecConfig) -> Option<
    Seq<(Seq<char>, Seq<char>)>,
> {
    let first = first_word(lower);
    let rest = rest_words(lower);
    if lower == "test ai"@ {
        Some(seq![sugg("echo ai-ok"@, "built-in test command"@)])
    } else if first == "install"@ && rest.len() > 0 {
        if c.offline {
            Some(
                seq![
                    sugg(install_command(installer_of(rest, c), rest, c), "install package"@),
                ],
            )
        } else {
            None
        }
    } else if (first == "remove"@ || first == "uninstall"@ || first == "delete"@) && rest.len()
        > 0 {
        Some(seq![sugg(removal_command(rest, c), "remove package"@)])
    } else if (first == "open"@ || first == "launch"@ || first == "start"@) && rest.len() > 0 {
        if c.offline {
            Some(
                seq![
                    sugg(
                        install_command(installer_of(rest, c), rest, c),
                        "ensure app is installed"@,
                    ),
                    sugg(rest, "launch app"@),
                ],
            )
        } else {
            None
        }
    } else if has_infix(lower, "fix sound"@) || has_infix(lower, "fix audio"@) || has_infix(
        lower,
        "sound"@,
    ) {
        Some(
            seq![
                sugg("systemctl --user restart pipewire wireplumber"@, "restart audio services"@),
                sugg("pactl info"@, "inspect pulse server state"@),
            ],
        )
    } else if has_infix(lower, "fix internet"@) || has_infix(lower, "fix network"@) || has_infix(
        lower,
        "network"@,
    ) {
        Some(
            seq![
                sugg("sudo systemctl restart NetworkManager"@, "restart network manager"@),
                sugg("nmcli networking on"@, "enable networking"@),
                sugg("nmcli -t -f DEVICE,STATE d"@, "list device states"@),
            ],
        )
    } else if has_infix(lower, "fix time"@) || has_infix(lower, "time sync"@) || has_infix(
        lower,
        "clock"@,
    ) {
        Some(
            seq![
                sugg("sudo timedatectl set-ntp true"@, "enable NTP sync"@),
                sugg("timedatectl status"@, "show time sync status"@),
            ],
        )
    } else if has_infix(lower, "upgrade system"@) || has_infix(lower, "update system"@) || first
        == "upgrade"@ {
        Some(seq![sugg(system_command(" -Syu"@, c), "upgrade system packages"@)])
    } else if has_infix(lower, "clean cache"@) || has_infix(lower, "cleanup"@) || has_infix(
        lower,
        "clear cache"@,
    ) {
        Some(seq![sugg(system_command(" -Sc"@, c), "clean package cache"@)])
    } else if has_infix(lower, "wifi status"@) || has_infix(lower, "network status"@) {
        Some(
            seq![
                sugg("nmcli general status"@, "show network status"@),
                sugg("nmcli -t -f DEVICE,STATE d"@, "list device connectivity"@),
            ],
        )
    } else if has_infix(lower, "fix bluetooth"@) || has_infix(lower, "bluetooth"@) {
        Some(
            seq![
                sugg("sudo systemctl restart bluetooth"@, "restart bluetooth service"@),
                sugg("bluetoothctl show"@, "show bluetooth adapter state"@),
            ],
        )
    } else if (first == "logs"@ || first == "journal"@) && rest.len() > 0 {
        Some(
            seq![sugg("journalctl -u "@ + rest + " --no-pager -n 50"@, "tail service logs"@)],
        )
    } else {
        None
    }
}

/// What an optional list of suggestions holds.
pub open spec fn listing(r: Option<Vec<Suggestion>>) -> Option<Seq<(Seq<char>, Seq<char>)>> {
    match r {
        Some(v) => Some(pairs(v@)),
        None => None,
    }
}

fn fixed(cmd: &'static str, reason: &'static str) -> (r: Suggestion)
    ensures
        r.pair() == sugg(cmd@, reason@),
{
    Suggestion::new(String::from_str(cmd), reason)
}

fn one(a: Suggestion) -> (r: Option<Vec<Suggestion>>)
    ensures
        listing(r) == Some(seq![a.pair()]),
{
    let mut v: Vec<Suggestion> = Vec::new();
    v.push(a);
    assert(pairs(v@) =~= seq![a.pair()]);
    Some(v)
}

fn two(a: Suggestion, b: Suggestion) -> (r: Option<Vec<Suggestion>>)
    ensures
        listing(r) == Some(seq![a.pair(), b.pair()]),
{
    let mut v: Vec<Suggestion> = Vec::new();
    v.push(a);
    v.push(b);
    assert(pairs(v@) =~= seq![a.pair(), b.pair()]);
    Some(v)
}

fn three(a: Suggestion, b: Suggestion, c: Suggestion) -> (r: Option<Vec<Suggestion>>)
    ensures
        listing(r) == Some(seq![a.pair(), b.pair(), c.pair()]),
{
    let mut v: Vec<Suggestion> = Vec::new();
    v.push(a);
    v.push(b);
    v.push(c);
    assert(pairs(v@) =~= seq![a.pair(), b.pair(), c.pair()]);
    Some(v)
}

fn removal(pkg: &str, config: &ExecConfig) -> (r: Suggestion)
    ensures
        r.pair() == sugg(removal_command(pkg@, *config), "remove package"@),
{
    let installer: &'static str = installer_for(pkg, config);
    let base: String = if same_text(installer, "paru") {
        String::from_str(installer).concat(" -R ").concat(pkg)
    } else {
        String::from_str(installer).concat(" -Rsn ").concat(pkg)
    };
    Suggestion::new(apply_pkg_flags(base, config), "remove package")
}

fn system_wide(action: &str, config: &ExecConfig, reason: &'static str) -> (r: Suggestion)
    ensures
        r.pair() == sugg(system_command(action@, *config), reason@),
{
    let installer: &'static str = installer_for("base", config);
    let base: String = String::from_str(installer).concat(action);
    Suggestion::new(apply_pkg_flags(base, config), reason)
}

/// The rule table, on a prompt that is already in lower case.
pub fn translate_lowered(lower: &str, config: &ExecConfig) -> (r: Option<Vec<Suggestion>>)
    ensures
        listing(r) == translation(lower@, *config),
{
    let ws: Vec<String> = split_words(lower);
    let first: String = if ws.len() > 0 {
        assert(texts(ws@)[0] == ws@[0]@);
        ws[0].clone()
    } else {
        String::new()
    };
    let first: &str = first.as_str();
    let rest: String = join_from(&ws, 1);
    let rest: &str = rest.as_str();
    let has_rest: bool = !rest.is_empty();

    if same_text(lower, "test ai") {
        return one(fixed("echo ai-ok", "built-in test command"));
    }
    if same_text(first, "install") && has_rest {
        if config.offline {
            let installer: &'static str = installer_for(rest, config);
            return one(install_cmd(installer, rest, config, "install package"));
        }
        return None;
    }
    if (same_text(first, "remove") || same_text(first, "uninstall") || same_text(first, "delete"))
        && has_rest {
        return one(removal(rest, config));
    }
    if (same_text(first, "open") || same_text(first, "launch") || same_text(first, "start"))
        && has_rest {
        if config.offline {
            let origin: PackageOrigin = resolve_package(config, &Replies::none());
            let launch: Suggestion = Suggestion::new(String::from_str(rest), "launch app");
            return match build_install_command(rest, "-S --needed", config, origin) {
                Some(install) => two(Suggestion::new(install, "ensure app is installed"), launch),
                None => {
                    let installer: &'static str = installer_for(rest, config);
                    two(install_cmd(installer, rest, config, "ensure app is installed"), launch)
                },
            };
        }
        return None;
    }
    if contains(lower, "fix sound") || contains(lower, "fix audio") || contains(lower, "sound") {
        return two(
            fixed("systemctl --user restart pipewire wireplumber", "restart audio services"),
            fixed("pactl info", "inspect pulse server state"),
        );
    }
    if contains(lower, "fix internet") || contains(lower, "fix network") || contains(
        lower,
        "network",
    ) {
        return three(
            fixed("sudo systemctl restart NetworkManager", "restart network manager"),
            fixed("nmcli networking on", "enable networking"),
            fixed("nmcli -t -f DEVICE,STATE d", "list device states"),
        );
    }
    if contains(lower, "fix time") || contains(lower, "time sync") || contains(lower, "clock") {
        return two(
            fixed("sudo timedatectl set-ntp true", "enable NTP sync"),
            fixed("timedatectl status", "show time sync status"),
        );
    }
    if contains(lower, "upgrade system") || contains(lower, "update system") || same_text(
        first,
        "upgrade",
    ) {
        return one(system_wide(" -Syu", config, "upgrade system packages"));
    }
    if contains(lower, "clean cache") || contains(lower, "cleanup") || contains(
        lower,
        "clear cache",
    ) {
        return one(system_wide(" -Sc", config, "clean package cache"));
    }
    if contains(lower, "wifi status") || contains(lower, "network status") {
        return two(
            fixed("nmcli general status", "show network status"),
            fixed("nmcli -t -f DEVICE,STATE d", "list device connectivity"),
        );
    }
    if contains(lower, "fix bluetooth") || contains(lower, "bluetooth") {
        return two(
            fixed("sudo systemctl restart bluetooth", "restart bluetooth service"),
            fixed("bluetoothctl show", "show bluetooth adapter state"),
        );
    }
    if (same_text(first, "logs") || same_text(first, "journal")) && has_rest {
        let line: String = String::from_str("journalctl -u ").concat(rest).concat(
            " --no-pager -n 50",
        );
        return one(Suggestion::new(line, "tail service logs"));
    }
    None
}

/// Translates a prompt by the rule table, whatever its case. `None` hands the
/// prompt on to the remote model.
pub fn builtin_translate(prompt: &str, config: &ExecConfig) -> (r: Option<Vec<Suggestion>>)
    ensures
        listing(r) == translation(lowered(prompt@), *config),
{
    let lower: String = to_lower(prompt);
    translate_lowered(lower.as_str(), config)
}

} // verus!
