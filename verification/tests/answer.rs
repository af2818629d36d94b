use arch_assist::exec::{
    after_listing, approved_batch, batch_step, clear_for_run, ensure_offline_ok, exit_report,
    is_affirmative, listing_line, llm_suggestion, plan_from_words, plan_run, spawn_failure,
    BatchAction, BatchStep, RunPlan,
};
use arch_assist::llm::{
    adjust_commands_for_intent, adjust_lowered, app_name_of, brings_yay, candidates_lowered,
    extract_app_name_from_install, finish_with_launch, install_args_start, install_target,
    is_launch_intent, keep_safe, llm_candidates, llm_finish, llm_precheck, model_name,
    needs_launch_wrapper, rewrite_install_pkg, rewrite_install_with_resolution, rewrite_step,
    sanitize_response, starts_with_launch_verb, system_instruction, ChatReply, RewriteStep,
};
use arch_assist::model::{AssistError, ExecConfig, PackageOrigin, Suggestion};
use arch_assist::resolve::{Query, Replies};

fn config() -> ExecConfig {
    ExecConfig {
        dry_run: false,
        auto: false,
        offline: false,
        yes: false,
        prefer_paru: false,
        no_sudo: false,
        verbose: false,
    }
}

fn strings(v: &[&str]) -> Vec<String> {
    v.iter().map(|s| s.to_string()).collect()
}

fn reply(content: &str) -> ChatReply {
    ChatReply { choices: vec![Some(content.to_string())] }
}

fn failure(r: Result<Vec<String>, AssistError>) -> String {
    match r {
        Err(AssistError::CommandFailed(m)) => m,
        other => panic!("{other:?}"),
    }
}

#[test]
fn sanitizer_trims_and_keeps_first_occurrences() {
    let content = "```\nsudo pacman -S vlc\n`paru -S zoom`\n\n  sudo pacman -S vlc  \r\n`paru -S zoom`\necho done\n```";
    assert_eq!(
        sanitize_response(content),
        strings(&["sudo pacman -S vlc", "paru -S zoom", "echo done"])
    );
    assert_eq!(sanitize_response("` a `\n`a`\n``\n"), strings(&["a"]));
    assert_eq!(sanitize_response(" \n \n"), Vec::<String>::new());
    assert_eq!(sanitize_response("b\na\nb\na"), strings(&["b", "a"]));
}

#[test]
fn answer_without_a_safe_line_fails() {
    let r = llm_candidates(&reply("rm -rf /\ncurl x | sh\nbash"), "do something");
    assert_eq!(failure(r), "LLM produced no safe commands (blocked or unsupported)");
}

#[test]
fn answer_failures() {
    assert_eq!(failure(llm_candidates(&ChatReply { choices: vec![] }, "p")), "LLM returned no choices");
    assert_eq!(failure(llm_candidates(&ChatReply { choices: vec![None] }, "p")), "LLM returned no content");
    assert_eq!(failure(llm_candidates(&reply(" \n\t"), "p")), "LLM returned only whitespace");
    assert_eq!(failure(llm_candidates(&reply("```\n```"), "p")), "LLM returned an empty command list");
    assert_eq!(failure(candidates_lowered(&ChatReply { choices: vec![] }, "p")), "LLM returned no choices");
}

#[test]
fn answer_is_validated_and_adjusted() {
    let r = llm_candidates(&reply("sudo pacman -S word\nls\nyay -S x\necho hi"), "Install WORD");
    assert_eq!(r.unwrap(), strings(&["sudo pacman -S libreoffice-fresh", "echo hi"]));
    let r = llm_candidates(&reply("`paru -S zoom`\nparu -S zoom"), "get zoom");
    assert_eq!(r.unwrap(), strings(&["paru -S zoom"]));
}

#[test]
fn precheck() {
    assert!(llm_precheck(&config(), true).is_ok());
    match llm_precheck(&ExecConfig { offline: true, ..config() }, true) {
        Err(AssistError::CommandFailed(m)) => assert_eq!(m, "offline mode: LLM suggestions disabled"),
        other => panic!("{other:?}"),
    }
    match llm_precheck(&config(), false) {
        Err(AssistError::CommandFailed(m)) => assert_eq!(m, "OPENAI_API_KEY not set"),
        other => panic!("{other:?}"),
    }
}

#[test]
fn only_safe_commands_are_kept() {
    let kept = keep_safe(strings(&["echo a", "ls", "paru -S x", "echo a; ls", "launch vlc"]));
    assert_eq!(kept, strings(&["echo a", "paru -S x", "launch vlc"]));
    assert_eq!(keep_safe(Vec::new()), Vec::<String>::new());
}

#[test]
fn launch_intent() {
    assert!(is_launch_intent("Open firefox"));
    assert!(is_launch_intent("launch x"));
    assert!(is_launch_intent("STARTUP"));
    assert!(!is_launch_intent("please open x"));
    assert!(!is_launch_intent(""));
    assert!(starts_with_launch_verb("open"));
    assert!(!starts_with_launch_verb("Open"));
}

#[test]
fn bare_names_need_a_wrapper() {
    assert!(needs_launch_wrapper("firefox"));
    assert!(!needs_launch_wrapper("echo"));
    assert!(!needs_launch_wrapper("firefox --new-window"));
    assert!(!needs_launch_wrapper("launch"));
    assert!(needs_launch_wrapper(""));
    assert!(needs_launch_wrapper("a\tb"));
}

#[test]
fn install_commands_are_recognised() {
    assert_eq!(install_args_start(&strings(&["sudo", "pacman", "-S", "x"])), Some(2));
    assert_eq!(install_args_start(&strings(&["pacman", "-Syu"])), Some(1));
    assert_eq!(install_args_start(&strings(&["paru", "-S", "x"])), Some(1));
    assert_eq!(install_args_start(&strings(&["sudo", "pacman"])), None);
    assert_eq!(install_args_start(&strings(&["sudo", "pacman", "-R", "x"])), None);
    assert_eq!(install_args_start(&strings(&["sudo", "paru", "-S", "x"])), None);
    assert_eq!(install_args_start(&strings(&["pacman"])), None);
    assert_eq!(install_args_start(&strings(&["echo", "-S"])), None);
}

#[test]
fn package_is_replaced() {
    assert_eq!(rewrite_install_pkg("sudo pacman -S  word", "libreoffice-fresh").as_deref(), Some("sudo pacman -S libreoffice-fresh"));
    assert_eq!(rewrite_install_pkg("paru -S --needed a", "b").as_deref(), Some("paru -S --needed b"));
    assert_eq!(rewrite_install_pkg("pacman -Syu", "b").as_deref(), Some("pacman b"));
    assert_eq!(rewrite_install_pkg("pacman -R a", "b"), None);
    assert_eq!(rewrite_install_pkg("echo a", "b"), None);
    assert_eq!(rewrite_install_pkg("pacman", "b"), None);
    assert_eq!(rewrite_install_pkg("sudo pacman", "b"), None);
}

#[test]
fn adjusting() {
    let cmds = strings(&["yay -S x", "sudo yay", "yay", "firefox", "paru -S word", "echo hi"]);
    assert_eq!(
        adjust_commands_for_intent(cmds.clone(), "Open Word"),
        strings(&["launch firefox", "paru -S libreoffice-fresh", "echo hi"])
    );
    assert_eq!(
        adjust_lowered(cmds.clone(), "install it"),
        strings(&["firefox", "paru -S word", "echo hi"])
    );
    let only_yay = strings(&["yay -S x", "yay", "paru -S yay"]);
    assert_eq!(adjust_commands_for_intent(only_yay, "anything"), Vec::<String>::new());
    assert_eq!(
        adjust_commands_for_intent(strings(&["paru -S yay"]), "install yay"),
        Vec::<String>::new()
    );
    assert_eq!(
        adjust_lowered(strings(&["yayfoo", "pacman -S\tyay word", "echo hi"]), "open office"),
        strings(&["echo hi"])
    );
    assert_eq!(adjust_commands_for_intent(Vec::new(), "open x"), Vec::<String>::new());
}

#[test]
fn app_names() {
    assert_eq!(app_name_of("launch vlc now").as_deref(), Some("vlc"));
    assert_eq!(app_name_of("sudo pacman -S --needed vlc").as_deref(), Some("vlc"));
    assert_eq!(app_name_of("paru -S zoom").as_deref(), Some("zoom"));
    assert_eq!(app_name_of("launch"), None);
    assert_eq!(app_name_of("echo hi"), None);
    assert_eq!(extract_app_name_from_install(&strings(&["echo a", "sudo pacman -S vlc", "echo b"])).as_deref(), Some("vlc"));
    assert_eq!(extract_app_name_from_install(&strings(&["paru -S a", "pacman -S b"])).as_deref(), Some("b"));
    assert_eq!(extract_app_name_from_install(&strings(&["echo a"])), None);
    assert_eq!(extract_app_name_from_install(&Vec::new()), None);
}

#[test]
fn install_lines_are_rebuilt_for_the_origin() {
    let c = config();
    assert_eq!(install_target("sudo pacman -S --needed vlc").as_deref(), Some("vlc"));
    assert_eq!(install_target("echo vlc"), None);
    assert_eq!(rewrite_install_with_resolution("sudo pacman -S --needed zoom".to_string(), &c, PackageOrigin::Aur), "paru -S --needed zoom");
    assert_eq!(rewrite_install_with_resolution("pacman -S vlc".to_string(), &c, PackageOrigin::Repo), "sudo pacman -S vlc");
    assert_eq!(rewrite_install_with_resolution("paru -S vlc".to_string(), &ExecConfig { no_sudo: true, ..c }, PackageOrigin::Repo), "pacman -S vlc");
    assert_eq!(rewrite_install_with_resolution("pacman -S spotify".to_string(), &c, PackageOrigin::Unknown), "paru -S spotify");
    assert_eq!(rewrite_install_with_resolution("pacman  -S vlc".to_string(), &c, PackageOrigin::Offline), "pacman  -S vlc");
    assert_eq!(rewrite_install_with_resolution("echo  hi".to_string(), &c, PackageOrigin::Repo), "echo  hi");
    assert_eq!(rewrite_install_with_resolution("pacman -Syu".to_string(), &c, PackageOrigin::Repo), "sudo pacman  -Syu");
}

#[test]
fn launch_step_is_added() {
    let cmds = strings(&["sudo pacman -S vlc"]);
    assert_eq!(llm_finish(cmds.clone(), "open vlc"), strings(&["sudo pacman -S vlc", "launch vlc"]));
    assert_eq!(llm_finish(cmds.clone(), "install vlc"), cmds);
    let with = strings(&["sudo pacman -S vlc", "launch vlc"]);
    assert_eq!(finish_with_launch(with.clone(), true), with);
    assert_eq!(finish_with_launch(strings(&["echo hi"]), true), strings(&["echo hi"]));
    assert_eq!(finish_with_launch(cmds.clone(), false), cmds);
}

#[test]
fn declined_batch_runs_nothing() {
    let auto = ExecConfig { auto: true, ..config() };
    let batch = vec![Suggestion::new("echo a".to_string(), "r"), Suggestion::new("echo b".to_string(), "r")];
    assert_eq!(after_listing(&auto), BatchStep::Ask);
    for answer in ["n", "", "Yes", "yEs", "no", "yy", "y es", "ok"] {
        assert!(!is_affirmative(answer), "{answer}");
        assert!(approved_batch(&batch, &auto, Some(answer)).is_empty());
    }
    assert!(approved_batch(&batch, &auto, None).is_empty());
    assert!(approved_batch(&batch, &ExecConfig { yes: true, ..config() }, Some("y")).is_empty());
}

#[test]
fn consent_runs_the_batch() {
    let auto = ExecConfig { auto: true, ..config() };
    let batch = vec![Suggestion::new("echo a".to_string(), "r"), Suggestion::new("echo b".to_string(), "s")];
    for answer in ["y", "Y", "yes", "YES", " y\n", "yes\r\n"] {
        assert!(is_affirmative(answer), "{answer}");
        let run = approved_batch(&batch, &auto, Some(answer));
        assert_eq!(run.len(), 2);
        assert_eq!(run[0].cmd, "echo a");
        assert_eq!(run[1].cmd, "echo b");
        assert_eq!(run[1].reason, "s");
    }
    assert_eq!(after_listing(&config()), BatchStep::Stop);
    assert_eq!(after_listing(&ExecConfig { auto: true, yes: true, ..config() }), BatchStep::Execute);
    assert_eq!(after_listing(&ExecConfig { yes: true, ..config() }), BatchStep::Stop);
    assert_eq!(approved_batch(&batch, &ExecConfig { auto: true, yes: true, ..config() }, None).len(), 2);
}

#[test]
fn dry_run_spawns_nothing() {
    let dry = ExecConfig { dry_run: true, ..config() };
    for cmd in ["echo hi", "echo 'open", "", "sudo pacman -Syu"] {
        assert!(matches!(plan_run(cmd, &dry), Ok(RunPlan::Skip)), "{cmd}");
    }
    assert!(matches!(plan_from_words("x", &dry, Err("why".to_string())), Ok(RunPlan::Skip)));
}

#[test]
fn commands_split_as_a_shell_would() {
    match plan_run("echo 'a b' \"c d\" e\\ f", &config()) {
        Ok(RunPlan::Spawn(argv)) => assert_eq!(argv, strings(&["echo", "a b", "c d", "e f"])),
        other => panic!("{other:?}"),
    }
    match plan_run("echo 'open", &config()) {
        Err(AssistError::CommandFailed(m)) => assert_eq!(m, "echo 'open (missing closing quote)"),
        other => panic!("{other:?}"),
    }
    match plan_run("  ", &config()) {
        Err(AssistError::CommandFailed(m)) => assert_eq!(m, "  "),
        other => panic!("{other:?}"),
    }
    match plan_from_words("echo 'x", &config(), Err("no end".to_string())) {
        Err(AssistError::CommandFailed(m)) => assert_eq!(m, "echo 'x (no end)"),
        other => panic!("{other:?}"),
    }
    match plan_from_words("echo", &config(), Ok(Vec::new())) {
        Err(AssistError::CommandFailed(m)) => assert_eq!(m, "echo"),
        other => panic!("{other:?}"),
    }
    match plan_from_words("echo", &config(), Ok(strings(&["echo"]))) {
        Ok(RunPlan::Spawn(argv)) => assert_eq!(argv, strings(&["echo"])),
        other => panic!("{other:?}"),
    }
}

#[test]
fn parse_failure_text_is_the_parser_s() {
    let e = shell_words::split("echo 'open").unwrap_err();
    assert_eq!(format!(" ({e})"), " (missing closing quote)");
}

#[test]
fn offline_policy() {
    let off = ExecConfig { offline: true, ..config() };
    for cmd in ["sudo pacman -S vlc", "pacman -Syu", "paru -S x", "echo paru -S", "sudo pacman -Syu"] {
        let s = Suggestion::new(cmd.to_string(), "r");
        match ensure_offline_ok(&s, &off) {
            Err(AssistError::Unsafe(m)) => assert_eq!(m, format!("offline mode: blocked network command: {cmd}")),
            other => panic!("{other:?}"),
        }
        assert!(ensure_offline_ok(&s, &config()).is_ok());
        assert!(clear_for_run(&s, &off).is_err());
    }
    for cmd in ["pacman -R vlc", "echo hi", "systemctl restart x", "sudo pacman -Rsn x"] {
        let s = Suggestion::new(cmd.to_string(), "r");
        assert!(ensure_offline_ok(&s, &off).is_ok());
        assert!(clear_for_run(&s, &off).is_ok());
    }
    let s = Suggestion::new("ls".to_string(), "r");
    assert!(matches!(clear_for_run(&s, &config()), Err(AssistError::Unsafe(m)) if m == "ls"));
}

#[test]
fn reports() {
    assert!(exit_report("echo hi", true, "exit status: 0").is_ok());
    match exit_report("echo hi", false, "exit status: 1") {
        Err(AssistError::CommandFailed(m)) => assert_eq!(m, "echo hi exited with exit status: 1"),
        other => panic!("{other:?}"),
    }
    match spawn_failure("foo bar", "foo", true, "No such file") {
        AssistError::CommandFailed(m) => assert_eq!(m, "foo not found; install or adjust PATH"),
        other => panic!("{other:?}"),
    }
    match spawn_failure("foo bar", "foo", false, "denied") {
        AssistError::CommandFailed(m) => assert_eq!(m, "foo bar (denied)"),
        other => panic!("{other:?}"),
    }
    let s = Suggestion::new("echo hi".to_string(), "greet");
    assert_eq!(listing_line(&s), "echo hi    # greet");
    let s = llm_suggestion("echo hi".to_string());
    assert_eq!(s.reason, "LLM suggestion");
    assert_eq!(s.cmd, "echo hi");
}

#[test]
fn rewrite_steps_ask_then_rebuild() {
    let c = config();
    match rewrite_step("echo hi", &c, &Replies::none()) {
        RewriteStep::Ready(line) => assert_eq!(line, "echo hi"),
        other => panic!("{other:?}"),
    }
    let seen = Replies::none();
    let seen = match rewrite_step("sudo pacman -S zoom", &c, &seen) {
        RewriteStep::Ask(q) => {
            assert!(matches!(&q, Query::Repo(u) if u == "https://archlinux.org/packages/search/json/?q=zoom"));
            seen.record(&q, false)
        }
        other => panic!("{other:?}"),
    };
    let seen = match rewrite_step("sudo pacman -S zoom", &c, &seen) {
        RewriteStep::Ask(q) => {
            assert!(matches!(&q, Query::Aur(u) if u == "https://aur.archlinux.org/rpc/?v=5&type=info&arg=zoom"));
            seen.record(&q, true)
        }
        other => panic!("{other:?}"),
    };
    match rewrite_step("sudo pacman -S zoom", &c, &seen) {
        RewriteStep::Ready(line) => assert_eq!(line, "paru -S zoom"),
        other => panic!("{other:?}"),
    }
    match rewrite_step("sudo pacman -S zoom", &ExecConfig { offline: true, ..c }, &Replies::none()) {
        RewriteStep::Ready(line) => assert_eq!(line, "sudo pacman -S zoom"),
        other => panic!("{other:?}"),
    }
}

#[test]
fn request_defaults() {
    assert_eq!(model_name(None), "gpt-4o-mini");
    assert_eq!(model_name(Some("other".to_string())), "other");
    assert!(system_instruction().starts_with("You are an Arch Linux expert."));
}

#[test]
fn answer_of_yay_lines_only_fails() {
    let r = llm_candidates(&reply("paru -S yay\nsudo pacman -S --needed yay"), "install yay");
    assert_eq!(failure(r), "LLM produced no usable commands");
    let r = llm_candidates(&reply("paru -S yay\necho hi"), "install yay");
    assert_eq!(r.unwrap(), strings(&["echo hi"]));
}

#[test]
fn yay_is_recognised() {
    for cmd in ["yay", "yay -S x", "paru -S yay", "sudo yay", "launch yayfoo"] {
        assert!(brings_yay(cmd), "{cmd}");
    }
    for cmd in ["yayfoo", "echo hi", "paru -S x-yay", ""] {
        assert!(!brings_yay(cmd), "{cmd}");
    }
}

#[test]
fn batch_runs_in_order_and_ends_at_a_failure() {
    let c = config();
    let batch = vec![
        Suggestion::new("echo a".to_string(), "r"),
        Suggestion::new("ls".to_string(), "r"),
        Suggestion::new("echo c".to_string(), "r"),
    ];
    match batch_step(&batch, 0, None, &c) {
        BatchAction::Run(RunPlan::Spawn(argv)) => assert_eq!(argv, strings(&["echo", "a"])),
        other => panic!("{other:?}"),
    }
    match batch_step(&batch, 1, None, &c) {
        BatchAction::Fail(AssistError::Unsafe(m)) => assert_eq!(m, "ls"),
        other => panic!("{other:?}"),
    }
    match batch_step(&batch, 2, None, &c) {
        BatchAction::Run(RunPlan::Spawn(argv)) => assert_eq!(argv, strings(&["echo", "c"])),
        other => panic!("{other:?}"),
    }
    assert!(matches!(batch_step(&batch, 3, None, &c), BatchAction::Done));
    assert!(matches!(batch_step(&batch, 9, None, &c), BatchAction::Done));
    assert!(matches!(batch_step(&Vec::new(), 0, None, &c), BatchAction::Done));
    let failure = AssistError::CommandFailed("echo a exited with 1".to_string());
    match batch_step(&batch, 0, Some(failure), &c) {
        BatchAction::Fail(AssistError::CommandFailed(m)) => assert_eq!(m, "echo a exited with 1"),
        other => panic!("{other:?}"),
    }
}

#[test]
fn batch_step_shows_what_cannot_be_split_and_skips_in_a_dry_run() {
    let open = vec![Suggestion::new("echo 'a".to_string(), "r")];
    match batch_step(&open, 0, None, &config()) {
        BatchAction::Reject(AssistError::CommandFailed(m)) => {
            assert_eq!(m, "echo 'a (missing closing quote)")
        }
        other => panic!("{other:?}"),
    }
    let dry = ExecConfig { dry_run: true, ..config() };
    assert!(matches!(batch_step(&open, 0, None, &dry), BatchAction::Run(RunPlan::Skip)));
    let off = ExecConfig { offline: true, ..config() };
    let install = vec![Suggestion::new("sudo pacman -S vlc".to_string(), "r")];
    match batch_step(&install, 0, None, &off) {
        BatchAction::Fail(AssistError::Unsafe(m)) => {
            assert_eq!(m, "offline mode: blocked network command: sudo pacman -S vlc")
        }
        other => panic!("{other:?}"),
    }
}
