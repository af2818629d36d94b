use arch_assist::builtin::{apply_pkg_flags, builtin_translate, install_cmd, translate_lowered};
use arch_assist::model::{ExecConfig, PackageOrigin, Suggestion};
use arch_assist::text::is_space_char;
use arch_assist::resolve::{
    aur_hit, repo_hit, build_install_command, flags_of, installer_for, is_probably_aur, next_query, resolve_installer,
    resolve_package, Query, Replies,
};

fn config() -> ExecConfig {
    ExecConfig {
        dry_run: false,
        auto: false,
        offline: false,
        yes: false,
        prefer_paru: false,
        no_sudo: false,
        verbose: false,
    }
}

fn offline() -> ExecConfig {
    ExecConfig { offline: true, ..config() }
}

fn lines(v: &Option<Vec<Suggestion>>) -> Vec<(String, String)> {
    v.as_ref()
        .expect("a rule matches")
        .iter()
        .map(|s| (s.cmd.clone(), s.reason.to_string()))
        .collect()
}

fn pair(cmd: &str, reason: &str) -> (String, String) {
    (cmd.to_string(), reason.to_string())
}

#[test]
fn install_is_left_to_the_model_when_online() {
    assert!(builtin_translate("install spotify", &config()).is_none());
}

#[test]
fn install_offline_uses_the_installer_of_the_flags() {
    let r = builtin_translate("install spotify", &offline());
    assert_eq!(lines(&r), vec![pair("sudo pacman -S --needed spotify", "install package")]);
    let r = builtin_translate("install spotify", &ExecConfig { no_sudo: true, ..offline() });
    assert_eq!(lines(&r), vec![pair("pacman -S --needed spotify", "install package")]);
    let r = builtin_translate("install spotify", &ExecConfig { prefer_paru: true, ..offline() });
    assert_eq!(lines(&r), vec![pair("paru -S --needed spotify", "install package")]);
    let r = builtin_translate("install brave-bin", &ExecConfig { yes: true, ..offline() });
    assert_eq!(lines(&r), vec![pair("paru -S --needed brave-bin --noconfirm", "install package")]);
}

#[test]
fn fix_sound_restarts_and_inspects() {
    let r = builtin_translate("fix sound", &config());
    assert_eq!(
        lines(&r),
        vec![
            pair("systemctl --user restart pipewire wireplumber", "restart audio services"),
            pair("pactl info", "inspect pulse server state"),
        ]
    );
}

#[test]
fn prompts_match_in_any_case() {
    let r = builtin_translate("Fix SOUND please", &config());
    assert_eq!(lines(&r).len(), 2);
    let r = builtin_translate("TEST AI", &config());
    assert_eq!(lines(&r), vec![pair("echo ai-ok", "built-in test command")]);
    assert!(translate_lowered("TEST AI", &config()).is_none());
}

#[test]
fn removal_by_tool() {
    let r = builtin_translate("remove vlc", &config());
    assert_eq!(lines(&r), vec![pair("sudo pacman -Rsn vlc", "remove package")]);
    let r = builtin_translate("uninstall brave-bin", &config());
    assert_eq!(lines(&r), vec![pair("paru -R brave-bin", "remove package")]);
    let r = builtin_translate("delete vlc", &ExecConfig { no_sudo: true, yes: true, ..config() });
    assert_eq!(lines(&r), vec![pair("pacman -Rsn vlc --noconfirm", "remove package")]);
    assert!(builtin_translate("remove", &config()).is_none());
}

#[test]
fn launch_offline_installs_then_starts() {
    let r = builtin_translate("open  Firefox", &offline());
    assert_eq!(
        lines(&r),
        vec![
            pair("sudo pacman -S --needed firefox", "ensure app is installed"),
            pair("firefox", "launch app"),
        ]
    );
    assert!(builtin_translate("launch firefox", &config()).is_none());
    assert!(builtin_translate("start firefox", &config()).is_none());
}

#[test]
fn maintenance_rules() {
    let c = config();
    assert_eq!(
        lines(&builtin_translate("fix network", &c)),
        vec![
            pair("sudo systemctl restart NetworkManager", "restart network manager"),
            pair("nmcli networking on", "enable networking"),
            pair("nmcli -t -f DEVICE,STATE d", "list device states"),
        ]
    );
    assert_eq!(
        lines(&builtin_translate("my clock is wrong", &c)),
        vec![
            pair("sudo timedatectl set-ntp true", "enable NTP sync"),
            pair("timedatectl status", "show time sync status"),
        ]
    );
    assert_eq!(
        lines(&builtin_translate("upgrade", &c)),
        vec![pair("sudo pacman -Syu", "upgrade system packages")]
    );
    assert_eq!(
        lines(&builtin_translate("update system", &ExecConfig { yes: true, ..c })),
        vec![pair("sudo pacman -Syu --noconfirm", "upgrade system packages")]
    );
    assert_eq!(
        lines(&builtin_translate("clean cache", &ExecConfig { prefer_paru: true, ..c })),
        vec![pair("paru -Sc", "clean package cache")]
    );
    assert_eq!(
        lines(&builtin_translate("wifi status", &c)),
        vec![
            pair("nmcli general status", "show network status"),
            pair("nmcli -t -f DEVICE,STATE d", "list device connectivity"),
        ]
    );
    assert_eq!(
        lines(&builtin_translate("fix bluetooth", &c)),
        vec![
            pair("sudo systemctl restart bluetooth", "restart bluetooth service"),
            pair("bluetoothctl show", "show bluetooth adapter state"),
        ]
    );
    assert_eq!(
        lines(&builtin_translate("logs  sshd", &c)),
        vec![pair("journalctl -u sshd --no-pager -n 50", "tail service logs")]
    );
    assert_eq!(lines(&builtin_translate("network status", &c)).len(), 3);
    assert!(builtin_translate("what is the weather", &c).is_none());
    assert!(builtin_translate("", &c).is_none());
}

#[test]
fn noconfirm_is_added_once() {
    let yes = ExecConfig { yes: true, ..config() };
    assert_eq!(apply_pkg_flags("sudo pacman -Syu".to_string(), &yes), "sudo pacman -Syu --noconfirm");
    assert_eq!(apply_pkg_flags("pacman -Sc".to_string(), &yes), "pacman -Sc --noconfirm");
    assert_eq!(apply_pkg_flags("paru -S x".to_string(), &yes), "paru -S x --noconfirm");
    assert_eq!(
        apply_pkg_flags("paru -S x --noconfirm".to_string(), &yes),
        "paru -S x --noconfirm"
    );
    assert_eq!(apply_pkg_flags("echo hi".to_string(), &yes), "echo hi");
    assert_eq!(apply_pkg_flags("pacman".to_string(), &yes), "pacman");
    assert_eq!(apply_pkg_flags("sudo pacman -Syu".to_string(), &config()), "sudo pacman -Syu");
    let once = apply_pkg_flags("paru -S x".to_string(), &yes);
    assert_eq!(apply_pkg_flags(once.clone(), &yes), once);
}

#[test]
fn install_suggestion() {
    let s = install_cmd("paru", "zoom", &config(), "install package");
    assert_eq!(s.cmd, "paru -S --needed zoom");
    assert_eq!(s.reason, "install package");
    let s = install_cmd("sudo pacman", "vlc", &ExecConfig { yes: true, ..config() }, "r");
    assert_eq!(s.cmd, "sudo pacman -S --needed vlc --noconfirm");
}

#[test]
fn installer_by_flags_and_name() {
    assert_eq!(installer_for("vlc", &config()), "sudo pacman");
    assert_eq!(installer_for("vlc", &ExecConfig { no_sudo: true, ..config() }), "pacman");
    assert_eq!(installer_for("vlc", &ExecConfig { prefer_paru: true, no_sudo: true, ..config() }), "paru");
    assert_eq!(installer_for("brave-bin", &ExecConfig { no_sudo: true, ..config() }), "paru");
    assert_eq!(installer_for("foo-git", &config()), "sudo pacman");
}

#[test]
fn aur_heuristic() {
    for p in ["x-bin", "x-git", "x-svn", "x-hg", "google-chrome", "brave-bin", "microsoft-edge-stable-bin", "visual-studio-code-bin", "wps-office", "slack-desktop", "zoom", "spotify", "-hg"] {
        assert!(is_probably_aur(p), "{p}");
    }
    for p in ["vlc", "firefox", "bin", "Spotify", "zoom2", "", "x-bin2"] {
        assert!(!is_probably_aur(p), "{p}");
    }
}

#[test]
fn offline_resolution_asks_nobody() {
    let seen = Replies { repo: Some(true), aur: Some(true) };
    assert_eq!(resolve_package(&offline(), &seen), PackageOrigin::Offline);
    assert_eq!(resolve_package(&offline(), &Replies::none()), PackageOrigin::Offline);
    assert!(next_query("vlc", &offline(), &Replies::none()).is_none());
    assert!(next_query("vlc", &offline(), &Replies { repo: Some(false), aur: None }).is_none());
}

#[test]
fn resolution_by_replies() {
    let c = config();
    assert_eq!(resolve_package(&c, &Replies { repo: Some(true), aur: None }), PackageOrigin::Repo);
    assert_eq!(resolve_package(&c, &Replies { repo: Some(false), aur: Some(true) }), PackageOrigin::Aur);
    assert_eq!(resolve_package(&c, &Replies { repo: Some(false), aur: Some(false) }), PackageOrigin::Unknown);
    assert_eq!(resolve_package(&c, &Replies::none()), PackageOrigin::Unknown);
}

#[test]
fn queries_in_order_with_encoded_names() {
    let c = config();
    match next_query("c++ tools", &c, &Replies::none()) {
        Some(Query::Repo(url)) => {
            assert_eq!(url, "https://archlinux.org/packages/search/json/?q=c%2B%2B%20tools")
        }
        other => panic!("{other:?}"),
    }
    match next_query("a/b", &c, &Replies { repo: Some(false), aur: None }) {
        Some(Query::Aur(url)) => {
            assert_eq!(url, "https://aur.archlinux.org/rpc/?v=5&type=info&arg=a%2Fb")
        }
        other => panic!("{other:?}"),
    }
    assert!(next_query("vlc", &c, &Replies { repo: Some(true), aur: None }).is_none());
    assert!(next_query("vlc", &c, &Replies { repo: Some(false), aur: Some(false) }).is_none());
}

#[test]
fn install_command_by_origin() {
    let c = config();
    let ns = ExecConfig { no_sudo: true, ..config() };
    assert_eq!(build_install_command("vlc", "-S", &c, PackageOrigin::Repo).as_deref(), Some("sudo pacman -S vlc"));
    assert_eq!(build_install_command("vlc", "-S", &ns, PackageOrigin::Repo).as_deref(), Some("pacman -S vlc"));
    assert_eq!(build_install_command("vlc", "-S --needed", &c, PackageOrigin::Aur).as_deref(), Some("paru -S --needed vlc"));
    assert_eq!(build_install_command("zoom", "-S", &c, PackageOrigin::Unknown).as_deref(), Some("paru -S zoom"));
    assert_eq!(build_install_command("vlc", "-S", &ns, PackageOrigin::Unknown).as_deref(), Some("pacman -S vlc"));
    assert_eq!(build_install_command("vlc", "-S", &c, PackageOrigin::Offline), None);
}

#[test]
fn installer_rebuilt_from_words() {
    let c = config();
    let words: Vec<String> = vec!["-S".to_string(), "--needed".to_string(), "vlc".to_string()];
    assert_eq!(flags_of(&words), "-S --needed");
    assert_eq!(flags_of(&Vec::new()), "");
    assert_eq!(resolve_installer(&words, "vlc", &c, PackageOrigin::Aur).as_deref(), Some("paru -S --needed vlc"));
    assert_eq!(resolve_installer(&words, "vlc", &c, PackageOrigin::Repo).as_deref(), Some("sudo pacman -S --needed vlc"));
    assert_eq!(resolve_installer(&words, "vlc", &c, PackageOrigin::Offline), None);
}

#[test]
fn registry_answers() {
    assert!(repo_hit(Some(1)));
    assert!(!repo_hit(Some(0)));
    assert!(!repo_hit(None));
    assert!(aur_hit(Some(Some(2))));
    assert!(!aur_hit(Some(Some(0))));
    assert!(!aur_hit(Some(None)));
    assert!(!aur_hit(None));
    let seen = Replies::none().record(&Query::Repo(String::new()), false);
    assert_eq!(seen.repo, Some(false));
    assert_eq!(seen.aur, None);
    let seen = seen.record(&Query::Aur(String::new()), true);
    assert_eq!(seen.aur, Some(true));
    assert_eq!(resolve_package(&config(), &seen), PackageOrigin::Aur);
}

#[test]
fn space_is_what_the_standard_library_calls_whitespace() {
    let mut n: u32 = 0;
    while n <= 0x10ffff {
        if let Some(c) = char::from_u32(n) {
            assert_eq!(is_space_char(c), c.is_whitespace(), "{n:#x}");
        }
        n += 1;
    }
}
