//! The validator: the one place that decides whether a command line may be
//! run.

use vstd::prelude::*;
use vstd::string::*;
use crate::model::{AssistError, Fault};
use crate::text::{contains, first_word, has_infix, same_text, split_words, texts, words};

verus! {

/// The fragments that no command may hold: what chains, redirects or
/// substitutes in a shell, and a few destructive invocations.
pub open spec fn is_blocklisted(p: Seq<char>) -> bool {
    p == "|"@ || p == ">"@ || p == "<"@ || p == "&&"@ || p == "||"@ || p == ";"@ || p == "`"@ || p
        == "$("@ || p == "rm -rf"@ || p == "mkfs"@ || p == "dd "@ || p == " :"@
}

/// `s` holds a blocklisted fragment.
pub open spec fn has_forbidden(s: Seq<char>) -> bool {
    has_infix(s, "|"@) || has_infix(s, ">"@) || has_infix(s, "<"@) || has_infix(s, "&&"@)
        || has_infix(s, "||"@) || has_infix(s, ";"@) || has_infix(s, "`"@) || has_infix(s, "$("@)
        || has_infix(s, "rm -rf"@) || has_infix(s, "mkfs"@) || has_infix(s, "dd "@) || has_infix(
        s,
        " :"@,
    )
}

/// The programs that a command may start with.
pub open spec fn allowed_program(t: Seq<char>) -> bool {
    t == "sudo"@ || t == "pacman"@ || t == "paru"@ || t == "systemctl"@ || t == "nmcli"@ || t
        == "pactl"@ || t == "bluetoothctl"@ || t == "journalctl"@ || t == "timedatectl"@ || t
        == "echo"@ || t == "launch"@
}

/// A command is safe if it holds no blocklisted fragment and its first word
/// is an allowed program.
pub open spec fn is_safe(s: Seq<char>) -> bool {
    !has_forbidden(s) && allowed_program(first_word(s))
}

/// What the validator answers for a command: nothing, or the command itself as
/// unsafe.
pub open spec fn verdict(s: Seq<char>) -> Result<(), Fault> {
    if is_safe(s) {
        Ok(())
    } else {
        Err(Fault::Unsafe(s))
    }
}

/// The mathematical value of a result without payload.
pub open spec fn outcome(r: Result<(), AssistError>) -> Result<(), Fault> {
    match r {
        Ok(_) => Ok(()),
        Err(e) => Err(e.fault()),
    }
}

/// Whether `s` holds a blocklisted fragment.
pub fn holds_forbidden(s: &str) -> (r: bool)
    ensures
        r == has_forbidden(s@),
{
    contains(s, "|") || contains(s, ">") || contains(s, "<") || contains(s, "&&") || contains(
        s,
        "||",
    ) || contains(s, ";") || contains(s, "`") || contains(s, "$(") || contains(s, "rm -rf")
        || contains(s, "mkfs") || contains(s, "dd ") || contains(s, " :")
}

/// Whether `t` is an allowed program.
pub fn is_allowed_program(t: &str) -> (r: bool)
    ensures
        r == allowed_program(t@),
{
    same_text(t, "sudo") || same_text(t, "pacman") || same_text(t, "paru") || same_text(
        t,
        "systemctl",
    ) || same_text(t, "nmcli") || same_text(t, "pactl") || same_text(t, "bluetoothctl")
        || same_text(t, "journalctl") || same_text(t, "timedatectl") || same_text(t, "echo")
        || same_text(t, "launch")
}

/// The first word of `s`, or the empty text.
pub fn leading_word(s: &str) -> (r: String)
    ensures
        r@ == first_word(s@),
{
    let ws: Vec<String> = split_words(s);
    if ws.len() > 0 {
        assert(texts(ws@)[0] == ws@[0]@);
        ws[0].clone()
    } else {
        String::new()
    }
}

/// Validates a command. It passes if and only if it is safe; a command that does
/// not pass is handed back as `Unsafe`. The answer depends on the text alone.
pub fn validate(cmd: &str) -> (r: Result<(), AssistError>)
    ensures
        outcome(r) == verdict(cmd@),
{
    if holds_forbidden(cmd) {
        return Err(AssistError::Unsafe(String::from_str(cmd)));
    }
    let first: String = leading_word(cmd);
    if !is_allowed_program(first.as_str()) {
        return Err(AssistError::Unsafe(String::from_str(cmd)));
    }
    Ok(())
}

/// A command that holds a blocklisted fragment is rejected as unsafe,
/// whatever it starts with.
pub proof fn law_blocklisted_is_rejected(c: Seq<char>, fragment: Seq<char>)
    requires
        is_blocklisted(fragment),
        has_infix(c, fragment),
    ensures
        has_forbidden(c),
        verdict(c) == Err::<(), Fault>(Fault::Unsafe(c)),
{
}

/// A command is free of forbidden fragments exactly if no blocklisted
/// fragment stands in it.
pub proof fn law_forbidden_is_blocklisted(c: Seq<char>)
    ensures
        has_forbidden(c) <==> exists|p: Seq<char>| is_blocklisted(p) && has_infix(c, p),
{
    if has_forbidden(c) {
        assert(is_blocklisted("|"@) && is_blocklisted(">"@) && is_blocklisted("<"@)
            && is_blocklisted("&&"@) && is_blocklisted("||"@) && is_blocklisted(";"@)
            && is_blocklisted("`"@) && is_blocklisted("$("@) && is_blocklisted("rm -rf"@)
            && is_blocklisted("mkfs"@) && is_blocklisted("dd "@) && is_blocklisted(" :"@));
    }
}

/// A command whose first word is no allowed program is rejected, whatever
/// else it holds.
pub proof fn law_unlisted_program_is_rejected(c: Seq<char>)
    requires
        !allowed_program(first_word(c)),
    ensures
        verdict(c) == Err::<(), Fault>(Fault::Unsafe(c)),
{
}

/// A command without words is rejected: the empty text is no program.
pub proof fn law_blank_is_rejected(c: Seq<char>)
    requires
        words(c).len() == 0,
    ensures
        verdict(c) is Err,
{
    reveal_strlit("sudo");
    reveal_strlit("pacman");
    reveal_strlit("paru");
    reveal_strlit("systemctl");
    reveal_strlit("nmcli");
    reveal_strlit("pactl");
    reveal_strlit("bluetoothctl");
    reveal_strlit("journalctl");
    reveal_strlit("timedatectl");
    reveal_strlit("echo");
    reveal_strlit("launch");
    assert(first_word(c).len() == 0);
    assert("sudo"@.len() == 4 && "pacman"@.len() == 6 && "paru"@.len() == 4 && "systemctl"@.len()
        == 9 && "nmcli"@.len() == 5 && "pactl"@.len() == 5 && "bluetoothctl"@.len() == 12
        && "journalctl"@.len() == 10 && "timedatectl"@.len() == 11 && "echo"@.len() == 4
        && "launch"@.len() == 6);
}

/// Validating twice gives the same answer: two answers for one text are
/// equal, and a rejected command is handed back unchanged, so that validating
/// it again rejects it again.
pub proof fn law_verdict_is_stable(c: Seq<char>, first: Result<(), Fault>, second: Result<(), Fault>)
    requires
        first == verdict(c),
        second == verdict(c),
    ensures
        first == second,
        first is Ok <==> is_safe(c),
        first matches Err(Fault::Unsafe(m)) ==> m == c && verdict(m) == first,
{
}

} // verus!
