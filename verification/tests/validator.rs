use arch_assist::model::AssistError;
use arch_assist::text::{contains, ends_with, join_from, same_text, split_lines, split_words, starts_with, strip};
use arch_assist::validate::{holds_forbidden, is_allowed_program, leading_word, validate};

fn strings(v: &[&str]) -> Vec<String> {
    v.iter().map(|s| s.to_string()).collect()
}

#[test]
fn plain_commands_pass() {
    for cmd in [
        "sudo pacman -S --needed vlc",
        "pacman -Syu",
        "paru -S spotify",
        "systemctl --user restart pipewire wireplumber",
        "nmcli general status",
        "pactl info",
        "bluetoothctl show",
        "journalctl -u sshd --no-pager -n 50",
        "timedatectl status",
        "echo ai-ok",
        "launch firefox",
        "   echo padded",
    ] {
        assert!(validate(cmd).is_ok(), "{cmd}");
    }
}

#[test]
fn every_blocklisted_fragment_is_rejected() {
    for bad in ["|", ">", "<", "&&", "||", ";", "`", "$(", "rm -rf", "mkfs", "dd ", " :"] {
        let cmd = format!("echo a{bad}b");
        assert!(holds_forbidden(&cmd), "{cmd}");
        match validate(&cmd) {
            Err(AssistError::Unsafe(text)) => assert_eq!(text, cmd),
            other => panic!("{cmd}: {other:?}"),
        }
    }
}

#[test]
fn unlisted_program_is_rejected() {
    for cmd in ["ls -la", "bash -c true", "/usr/bin/pacman -Syu", "-pacman", "firefox", "Sudo pacman -Syu"] {
        match validate(cmd) {
            Err(AssistError::Unsafe(text)) => assert_eq!(text, cmd),
            other => panic!("{cmd}: {other:?}"),
        }
    }
}

#[test]
fn blank_command_is_rejected() {
    assert!(matches!(validate(""), Err(AssistError::Unsafe(_))));
    assert!(matches!(validate("  \t "), Err(AssistError::Unsafe(_))));
}

#[test]
fn validation_is_repeatable() {
    for cmd in ["echo ok", "rm -rf /", "ls", "sudo pacman -Syu"] {
        let first = validate(cmd).is_ok();
        let second = validate(cmd).is_ok();
        assert_eq!(first, second);
        if let Err(AssistError::Unsafe(text)) = validate(cmd) {
            assert!(validate(&text).is_err());
        }
    }
}

#[test]
fn error_messages() {
    assert_eq!(AssistError::Unsafe("ls".to_string()).message(), "unsafe command blocked: ls");
    assert_eq!(AssistError::CommandFailed("x".to_string()).message(), "command failed: x");
}

#[test]
fn allowed_programs() {
    for p in ["sudo", "pacman", "paru", "systemctl", "nmcli", "pactl", "bluetoothctl", "journalctl", "timedatectl", "echo", "launch"] {
        assert!(is_allowed_program(p));
    }
    assert!(!is_allowed_program(""));
    assert!(!is_allowed_program("yay"));
    assert!(!is_allowed_program("sudo "));
}

#[test]
fn leading_word_skips_spaces() {
    assert_eq!(leading_word("  sudo\tpacman"), "sudo");
    assert_eq!(leading_word(""), "");
    assert_eq!(leading_word("\u{3000}echo"), "echo");
}

#[test]
fn words_are_maximal_runs() {
    assert_eq!(split_words("  a  bb\tc\n"), strings(&["a", "bb", "c"]));
    assert_eq!(split_words(""), Vec::<String>::new());
    assert_eq!(split_words(" \u{a0}\u{2003} "), Vec::<String>::new());
    assert_eq!(split_words("one"), strings(&["one"]));
    assert_eq!(split_words("é ü"), strings(&["é", "ü"]));
    for s in ["  a  bb\tc\n", "x\u{85}y\u{1680}z", "a\u{200b}b", "\u{2028}q\u{2029}r\u{202f}s\u{205f}t"] {
        let expected: Vec<String> = s.split_whitespace().map(|w| w.to_string()).collect();
        assert_eq!(split_words(s), expected);
    }
}

#[test]
fn lines_end_at_line_feeds() {
    assert_eq!(split_lines("a\nb"), strings(&["a", "b"]));
    assert_eq!(split_lines("a\r\nb\n"), strings(&["a", "b"]));
    assert_eq!(split_lines("a\n\nb"), strings(&["a", "", "b"]));
    assert_eq!(split_lines("a\r"), strings(&["a\r"]));
    assert_eq!(split_lines("\n"), strings(&[""]));
    assert_eq!(split_lines(""), Vec::<String>::new());
    for s in ["a\r\r\nb", "\r\n\r\n", "x\ny\r", "\rz\n"] {
        let expected: Vec<String> = s.lines().map(|w| w.to_string()).collect();
        assert_eq!(split_lines(s), expected);
    }
}

#[test]
fn strip_takes_both_ends() {
    assert_eq!(strip("  a b \n", false), "a b");
    assert_eq!(strip("   ", false), "");
    assert_eq!(strip("", false), "");
    assert_eq!(strip("``a`b`", true), "a`b");
    assert_eq!(strip("```", true), "");
    assert_eq!(strip(" `a` ", true), " `a` ");
}

#[test]
fn searching() {
    assert!(contains("sudo pacman -S x", " pacman -S"));
    assert!(contains("abc", ""));
    assert!(contains("", ""));
    assert!(!contains("ab", "abc"));
    assert!(contains("xxab", "ab"));
    assert!(starts_with("paru -S", "paru "));
    assert!(!starts_with("par", "paru"));
    assert!(ends_with("brave-bin", "-bin"));
    assert!(!ends_with("bin", "-bin"));
    assert!(same_text("a", "a"));
    assert!(!same_text("a", "ab"));
    assert!(!same_text("ab", "ac"));
}

#[test]
fn joining() {
    let ws = strings(&["a", "b", "c"]);
    assert_eq!(join_from(&ws, 0), "a b c");
    assert_eq!(join_from(&ws, 1), "b c");
    assert_eq!(join_from(&ws, 2), "c");
    assert_eq!(join_from(&ws, 3), "");
    assert_eq!(join_from(&ws, 9), "");
}
