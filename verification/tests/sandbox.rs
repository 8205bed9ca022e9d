use rust_server::sandbox::{
    after_build, build_arguments, check_arguments, check_response, client_ip,
    extract_module_name, fallback_executable,
    init_arguments, log_entry_at, read_build_record, register_log, route_module, run_response, run_safe_bin, safe_ip,
    save_failed, scan_build_output, scan_record, setup_user_env, source_path, user_agent,
    verify_code, verify_request, workspace_expired, BuildRecord, BuildScan, BuildStep, Built,
    CodeRequest, CodeResponse, RunOutcome, Screened, Stored, ToolOutcome, RUN_TIMEOUT_SECS,
    WORKSPACE_MAX_AGE_MS,
};

fn response(stdout: &str, stderr: &str) -> CodeResponse {
    CodeResponse { stdout: stdout.to_string(), stderr: stderr.to_string() }
}

fn finished(success: bool, stdout: &str, stderr: &str) -> ToolOutcome {
    ToolOutcome::Finished { success, stdout: stdout.to_string(), stderr: stderr.to_string() }
}

#[test]
fn filesystem_access_is_refused_by_name() {
    let r = verify_code("fn main(){ std::fs::read(\"/etc/passwd\"); }");
    let message = r.unwrap_err();
    assert!(message.contains("std::fs"));
    assert_eq!(message, "Segurança: O uso de 'std::fs' não é permitido.");
}

#[test]
fn harmless_source_is_accepted() {
    assert_eq!(verify_code("fn main() { println!(\"oi\"); }"), Ok(()));
    assert_eq!(verify_code(""), Ok(()));
}

#[test]
fn the_first_forbidden_word_of_the_list_is_named() {
    let r = verify_code("unsafe { std::fs::remove_file(\"x\") }");
    assert_eq!(r, Err("Segurança: O uso de 'std::fs' não é permitido.".to_string()));
    let r = verify_code("let b = include_bytes!(\"x\");");
    assert_eq!(r, Err("Segurança: O uso de 'include_bytes!' não é permitido.".to_string()));
    let r = verify_code("include!(\"x.rs\");");
    assert_eq!(r, Err("Segurança: O uso de 'include!' não é permitido.".to_string()));
}

#[test]
fn every_forbidden_word_is_refused() {
    let words = [
        "std::fs",
        "std::io",
        "std::path",
        "std::env",
        "std::net",
        "std::socket",
        "std::process",
        "std::thread",
        "std::sync",
        "Command::new",
        "std::ffi",
        "std::os",
        "libc",
        "winapi",
        "std::ptr",
        "std::mem",
        "std::intrinsics",
        "std::time::Instant",
        "std::time::SystemTime",
        "std::alloc",
        "include_str!",
        "include_bytes!",
        "include!",
        "unsafe",
    ];
    for word in words {
        let code = format!("fn main() {{ /* {} */ }}", word);
        let expected = format!("Segurança: O uso de '{}' não é permitido.", word);
        assert_eq!(verify_code(&code), Err(expected));
    }
}

#[test]
fn a_word_that_merely_holds_a_forbidden_one_is_refused_too() {
    let r = verify_code("let glibc_version = 2;");
    assert_eq!(r, Err("Segurança: O uso de 'libc' não é permitido.".to_string()));
}

#[test]
fn module_marker_names_the_module() {
    assert_eq!(extract_module_name("//#[mod=utils]\npub fn x() {}"), Some("utils".to_string()));
    assert_eq!(extract_module_name("  //#[mod=a_b1]  \n"), Some("a_b1".to_string()));
    assert_eq!(extract_module_name("fn main() {}\n//#[mod=later]"), Some("later".to_string()));
}

#[test]
fn source_without_marker_names_no_module() {
    assert_eq!(extract_module_name("fn main() {}"), None);
    assert_eq!(extract_module_name(""), None);
    assert_eq!(extract_module_name("// #[mod=x]"), None);
    assert_eq!(extract_module_name("//#[mod=x"), None);
    assert_eq!(extract_module_name("let s = 1; //#[mod=x]"), None);
}

#[test]
fn marker_with_a_bad_name_is_passed_over() {
    assert_eq!(extract_module_name("//#[mod=a-b]"), None);
    assert_eq!(extract_module_name("//#[mod=a b]"), None);
    assert_eq!(extract_module_name("//#[mod=a/b]\n//#[mod=good]"), Some("good".to_string()));
}

#[test]
fn the_first_marker_wins() {
    assert_eq!(
        extract_module_name("//#[mod=first]\n//#[mod=second]"),
        Some("first".to_string())
    );
}

#[test]
fn name_is_what_stands_between_the_marker_and_one_bracket() {
    assert_eq!(extract_module_name("//#[mod=_]]"), None);
    assert_eq!(extract_module_name("//#[mod=//#[mod=x]]]"), None);
    assert_eq!(extract_module_name("//#[mod=//#[mod=x]"), None);
    assert_eq!(extract_module_name("//#[mod=x]]"), None);
    assert_eq!(extract_module_name("//#[mod=_]"), Some("_".to_string()));
    assert_eq!(extract_module_name("//#[mod=]"), Some("".to_string()));
    assert_eq!(extract_module_name("//#[mod="), None);
    assert_eq!(extract_module_name("//#[mod=x]]\n//#[mod=y]"), Some("y".to_string()));
}

#[test]
fn marker_is_found_on_lines_ending_in_carriage_return() {
    assert_eq!(extract_module_name("fn a() {}\r\n//#[mod=win]\r\nfn b() {}"), Some("win".to_string()));
}

#[test]
fn marker_name_may_hold_letters_of_any_script() {
    assert_eq!(extract_module_name("//#[mod=módulo]"), Some("módulo".to_string()));
}

#[test]
fn module_is_routed_to_its_own_file() {
    assert_eq!(route_module("//#[mod=utils]\npub fn x() {}"), ("utils.rs".to_string(), false));
    assert_eq!(route_module("fn main() {}"), ("main.rs".to_string(), true));
}

#[test]
fn address_is_made_safe_for_a_file_name() {
    assert_eq!(safe_ip("127.0.0.1"), "127_0_0_1");
    assert_eq!(safe_ip("::1"), "__1");
    assert_eq!(safe_ip("2001:db8::ff00:42"), "2001_db8__ff00_42");
    assert_eq!(safe_ip("abc123"), "abc123");
    assert_eq!(safe_ip(""), "");
    assert_eq!(safe_ip("10.0.0.1, 10.0.0.2"), "10_0_0_1__10_0_0_2");
    assert_eq!(safe_ip("é-ß"), "é_ß");
}

#[test]
fn forwarded_address_is_preferred() {
    assert_eq!(client_ip(Some("203.0.113.7"), "10.0.0.1"), "203.0.113.7");
    assert_eq!(client_ip(None, "10.0.0.1"), "10.0.0.1");
    assert_eq!(user_agent(Some("curl/8")), "curl/8");
    assert_eq!(user_agent(None), "Unknown Agent");
}

#[test]
fn workspace_lives_under_files() {
    let w = setup_user_env("127_0_0_1");
    assert_eq!(w.user_dir, "files/127_0_0_1");
    assert_eq!(w.src_dir, "files/127_0_0_1/src");
    assert_eq!(w.manifest, "files/127_0_0_1/Cargo.toml");
    assert_eq!(w.package_name, "app_127_0_0_1");
    assert_eq!(
        init_arguments(&w),
        vec![
            "init".to_string(),
            "--bin".to_string(),
            "--name".to_string(),
            "app_127_0_0_1".to_string(),
            "files/127_0_0_1".to_string()
        ]
    );
    assert_eq!(source_path("127_0_0_1", "main.rs"), "files/127_0_0_1/src/main.rs");
}

#[test]
fn build_tool_arguments() {
    assert_eq!(check_arguments(), vec!["check"]);
    assert_eq!(build_arguments(), vec!["build", "--message-format=json", "-q"]);
}

#[test]
fn fallback_executable_depends_on_the_platform() {
    assert_eq!(fallback_executable("k", false), "files/k/target/debug/app_k");
    assert_eq!(fallback_executable("k", true), "files/k/target/debug/app_k.exe");
}

#[test]
fn log_entry_holds_what_was_received() {
    let e = log_entry_at("2024-01-02_03-04-05", "fn main() {}", "1_2_3_4", "1.2.3.4", "curl/8");
    assert_eq!(e.root, "logs");
    assert_eq!(e.dir, "logs/1_2_3_4");
    assert_eq!(e.path, "logs/1_2_3_4/2024-01-02_03-04-05.log");
    assert_eq!(
        e.content,
        "--- REQUISIÇÃO EM 2024-01-02_03-04-05 ---\nIP: 1.2.3.4\nUSER-AGENT: curl/8\n---------------------------\nCÓDIGO RECEBIDO:\n\nfn main() {}\n"
    );
}

#[test]
fn log_entry_is_stamped_with_the_local_time() {
    let e = register_log("x", "k", "1.1.1.1", "ua");
    assert_eq!(e.dir, "logs/k");
    assert!(e.path.starts_with("logs/k/"));
    assert!(e.path.ends_with(".log"));
    let stamp = &e.path["logs/k/".len()..e.path.len() - ".log".len()];
    assert_eq!(stamp.len(), 19);
    let bytes = stamp.as_bytes();
    assert_eq!(bytes[4], b'-');
    assert_eq!(bytes[7], b'-');
    assert_eq!(bytes[10], b'_');
    assert_eq!(bytes[13], b'-');
    assert_eq!(bytes[16], b'-');
    assert!(e.content.starts_with(&format!("--- REQUISIÇÃO EM {} ---\n", stamp)));
}

#[test]
fn save_failure_is_reported() {
    assert_eq!(
        save_failed("main.rs", "disk full"),
        response("", "Erro ao salvar arquivo main.rs: disk full")
    );
}

#[test]
fn check_of_a_module_is_reported() {
    assert_eq!(
        check_response("utils.rs", finished(true, "ok", "warn")),
        response("Módulo 'utils.rs' salvo.\nStdOut Check: ok", "warn")
    );
    assert_eq!(
        check_response("utils.rs", finished(false, "", "error[E0425]")),
        response("Módulo 'utils.rs' salvo.\nStdOut Check: ", "error[E0425]")
    );
    assert_eq!(
        check_response("utils.rs", ToolOutcome::NotRun("no cargo".to_string())),
        response("", "Erro ao verificar módulo: no cargo")
    );
}

#[test]
fn report_lines_are_read_as_json() {
    let report = concat_lines(&[
        "{\"reason\":\"compiler-message\",\"message\":{\"rendered\":\"warning: unused variable\"}}",
        "this line is no json",
        "{\"reason\":\"compiler-artifact\",\"executable\":\"/tmp/target/debug/app_k\"}",
        "{\"reason\":\"build-finished\",\"success\":true}",
    ]);
    let scan = scan_build_output(&report);
    assert_eq!(scan.diagnostics, "warning: unused variable\n");
    assert_eq!(scan.executable, Some("/tmp/target/debug/app_k".to_string()));
}

fn concat_lines(lines: &[&str]) -> String {
    let mut s = String::new();
    for l in lines {
        s.push_str(l);
        s.push('\n');
    }
    s
}

#[test]
fn diagnostics_are_gathered_in_order() {
    let report = concat_lines(&[
        "{\"message\":{\"rendered\":\"first\"}}",
        "{\"message\":{\"rendered\":\"second\\nline\"}}",
        "{\"message\":{\"code\":null}}",
        "{\"message\":\"not an object\"}",
    ]);
    let scan = scan_build_output(&report);
    assert_eq!(scan.diagnostics, "first\nsecond\nline\n");
    assert_eq!(scan.executable, None);
}

#[test]
fn the_last_executable_announced_is_kept() {
    let report = concat_lines(&[
        "{\"executable\":\"/a\"}",
        "{\"executable\":null}",
        "{\"executable\":\"/b\"}",
        "{\"executable\":17}",
    ]);
    assert_eq!(scan_build_output(&report).executable, Some("/b".to_string()));
}

#[test]
fn an_executable_counts_only_where_the_line_spells_the_key() {
    let report = "{\"\\u0065xecutable\":\"/hidden\"}\n";
    assert_eq!(scan_build_output(report).executable, None);
}

#[test]
fn report_with_windows_line_ends_is_read() {
    let report = "{\"message\":{\"rendered\":\"a\"}}\r\n{\"executable\":\"C:\\\\app.exe\"}\r\n";
    let scan = scan_build_output(report);
    assert_eq!(scan.diagnostics, "a\n");
    assert_eq!(scan.executable, Some("C:\\app.exe".to_string()));
}

#[test]
fn empty_report_gives_nothing() {
    let scan = scan_build_output("");
    assert_eq!(scan, BuildScan { diagnostics: String::new(), executable: None });
}

#[test]
fn one_record_is_added_to_the_scan() {
    let acc = BuildScan { diagnostics: "a\n".to_string(), executable: Some("/old".to_string()) };
    let record = BuildRecord { rendered: Some("b".to_string()), executable: Some("/new".to_string()) };
    let r = scan_record(acc.clone(), "{\"executable\":\"/new\"}", Some(record.clone()));
    assert_eq!(r, BuildScan { diagnostics: "a\nb\n".to_string(), executable: Some("/new".to_string()) });
    let r = scan_record(acc.clone(), "no key here", Some(record));
    assert_eq!(r, BuildScan { diagnostics: "a\nb\n".to_string(), executable: Some("/old".to_string()) });
    let r = scan_record(acc.clone(), "{\"executable\":1}", None);
    assert_eq!(r, acc);
}

#[test]
fn successful_build_runs_the_announced_executable() {
    let report = "{\"message\":{\"rendered\":\"warning: w\"}}\n{\"executable\":\"/x/app\"}\n";
    let step = after_build("k", false, finished(true, report, "ignored"));
    assert_eq!(
        step,
        BuildStep::Run { path: "/x/app".to_string(), diagnostics: Some("warning: w\n".to_string()) }
    );
}

#[test]
fn successful_build_without_executable_runs_the_usual_one() {
    let step = after_build("k", false, finished(true, "", ""));
    assert_eq!(step, BuildStep::Run { path: "files/k/target/debug/app_k".to_string(), diagnostics: None });
    let step = after_build("k", true, finished(true, "{\"message\":{\"rendered\":\"w\"}}", ""));
    assert_eq!(
        step,
        BuildStep::Run { path: "files/k/target/debug/app_k.exe".to_string(), diagnostics: None }
    );
}

#[test]
fn failed_build_answers_with_the_diagnostics() {
    let report = "{\"message\":{\"rendered\":\"error: boom\"}}\n";
    let step = after_build("k", false, finished(false, report, "raw stderr"));
    assert_eq!(step, BuildStep::Reply(response("", "Erro de Compilação:\nerror: boom\n")));
}

#[test]
fn failed_build_without_diagnostics_answers_with_the_second_stream() {
    let step = after_build("k", false, finished(false, "", "raw stderr"));
    assert_eq!(step, BuildStep::Reply(response("", "Erro de Compilação:\nraw stderr")));
}

#[test]
fn build_tool_that_could_not_run_is_reported() {
    let step = after_build("k", false, ToolOutcome::NotRun("not found".to_string()));
    assert_eq!(step, BuildStep::Reply(response("", "Erro ao invocar cargo: not found")));
}

#[test]
fn timeout_is_reported() {
    assert_eq!(RUN_TIMEOUT_SECS, 5);
    assert_eq!(
        run_safe_bin(RunOutcome::TimedOut),
        (String::new(), "Erro: Tempo limite de execução excedido.".to_string())
    );
    assert_eq!(
        run_response(None, RunOutcome::TimedOut),
        response("", "Erro: Tempo limite de execução excedido.")
    );
}

#[test]
fn run_outcomes_are_reported() {
    assert_eq!(
        run_safe_bin(RunOutcome::Missing),
        (String::new(), "Erro interno: Binário não encontrado.".to_string())
    );
    assert_eq!(
        run_safe_bin(RunOutcome::SpawnFailed("denied".to_string())),
        (String::new(), "Erro ao iniciar execução: denied".to_string())
    );
    assert_eq!(
        run_safe_bin(RunOutcome::WaitFailed("broken pipe".to_string())),
        (String::new(), "Erro de I/O na execução: broken pipe".to_string())
    );
    assert_eq!(
        run_safe_bin(RunOutcome::Finished { stdout: "42\n".to_string(), stderr: "e".to_string() }),
        ("42\n".to_string(), "e".to_string())
    );
}

#[test]
fn diagnostics_replace_the_second_stream_of_a_run() {
    let outcome = RunOutcome::Finished { stdout: "out".to_string(), stderr: "err".to_string() };
    assert_eq!(run_response(Some("warn\n".to_string()), outcome.clone()), response("out", "warn\n"));
    assert_eq!(run_response(None, outcome), response("out", "err"));
    assert_eq!(
        run_response(Some("warn\n".to_string()), RunOutcome::TimedOut),
        response("", "Erro: Tempo limite de execução excedido.")
    );
    assert_eq!(
        run_response(Some("warn\n".to_string()), RunOutcome::Missing),
        response("", "Erro interno: Binário não encontrado.")
    );
    assert_eq!(
        run_response(Some(String::new()), RunOutcome::SpawnFailed("denied".to_string())),
        response("", "Erro ao iniciar execução: denied")
    );
    assert_eq!(
        run_response(Some("warn\n".to_string()), RunOutcome::WaitFailed("pipe".to_string())),
        response("", "Erro de I/O na execução: pipe")
    );
}

#[test]
fn workspace_expires_after_twenty_minutes() {
    assert_eq!(WORKSPACE_MAX_AGE_MS, 1_200_000);
    assert!(!workspace_expired(0, 0));
    assert!(!workspace_expired(1199, 999_999_999));
    assert!(!workspace_expired(1200, 0));
    assert!(workspace_expired(1200, 1));
    assert!(workspace_expired(1201, 0));
    assert!(workspace_expired(u64::MAX, 999_999_999));
}

#[test]
fn forbidden_request_is_answered_before_anything_is_set_up() {
    let payload = CodeRequest { code: "fn main(){ std::fs::read(\"/etc/passwd\"); }".to_string() };
    let (received, entry) = verify_request(None, "10.1.2.3", None, payload);
    assert_eq!(entry.dir, "logs/10_1_2_3");
    assert!(entry.content.contains("IP: 10.1.2.3\nUSER-AGENT: Unknown Agent\n"));
    match received.screen() {
        Screened::Rejected(resp) => {
            assert_eq!(resp.stdout, "");
            assert!(resp.stderr.contains("std::fs"));
        }
        Screened::Accepted { .. } => panic!("a forbidden source was let through"),
    }
}

#[test]
fn main_program_is_built_and_run() {
    let payload = CodeRequest { code: "fn main() { println!(\"oi\"); }".to_string() };
    let (received, _) = verify_request(Some("203.0.113.7"), "10.1.2.3", Some("ua"), payload);
    let prepared = match received.screen() {
        Screened::Accepted { workspace, next } => {
            assert_eq!(workspace.user_dir, "files/203_0_113_7");
            next
        }
        Screened::Rejected(_) => panic!("a harmless source was refused"),
    };
    let (file, writing) = prepared.store();
    assert_eq!(file.path, "files/203_0_113_7/src/main.rs");
    assert_eq!(file.content, "fn main() { println!(\"oi\"); }");
    let building = match writing.written(None) {
        Stored::Build { dir, arguments, next } => {
            assert_eq!(dir, "files/203_0_113_7");
            assert_eq!(arguments, vec!["build", "--message-format=json", "-q"]);
            next
        }
        _ => panic!("the entry point is built"),
    };
    let report = "{\"executable\":\"/t/app\"}\n";
    let running = match building.built(false, finished(true, report, "")) {
        Built::Run { path, next } => {
            assert_eq!(path, "/t/app");
            next
        }
        Built::Reply(_) => panic!("a program that was built is run"),
    };
    let resp = running.finished(RunOutcome::Finished { stdout: "oi\n".to_string(), stderr: "x".to_string() });
    assert_eq!(resp, response("oi\n", ""));
}

#[test]
fn endless_program_is_answered_with_the_time_out() {
    let payload = CodeRequest { code: "fn main(){ loop {} }".to_string() };
    let (received, _) = verify_request(None, "10.1.2.3", None, payload);
    let prepared = match received.screen() {
        Screened::Accepted { next, .. } => next,
        Screened::Rejected(_) => panic!("a harmless source was refused"),
    };
    let (_, writing) = prepared.store();
    let building = match writing.written(None) {
        Stored::Build { next, .. } => next,
        _ => panic!("the entry point is built"),
    };
    let report = "{\"message\":{\"rendered\":\"warning: unused\"}}\n{\"executable\":\"/t/app\"}\n";
    let running = match building.built(false, finished(true, report, "")) {
        Built::Run { next, .. } => next,
        Built::Reply(_) => panic!("a program that was built is run"),
    };
    assert_eq!(running.finished(RunOutcome::TimedOut), response("", "Erro: Tempo limite de execução excedido."));
}

#[test]
fn one_line_of_the_report_is_read() {
    assert_eq!(read_build_record("not json"), None);
    assert_eq!(read_build_record("17"), Some(BuildRecord { rendered: None, executable: None }));
    assert_eq!(
        read_build_record("{\"message\":{\"rendered\":\"w\"},\"executable\":\"/a\"}"),
        Some(BuildRecord { rendered: Some("w".to_string()), executable: Some("/a".to_string()) })
    );
    assert_eq!(
        read_build_record("{\"message\":{\"rendered\":3},\"executable\":null}"),
        Some(BuildRecord { rendered: None, executable: None })
    );
    assert_eq!(
        read_build_record("{\"message\":\"text\",\"rendered\":\"w\"}"),
        Some(BuildRecord { rendered: None, executable: None })
    );
}

#[test]
fn module_is_checked_and_not_run() {
    let payload = CodeRequest { code: "//#[mod=util]\npub fn f() {}".to_string() };
    let (received, _) = verify_request(None, "::1", None, payload);
    let prepared = match received.screen() {
        Screened::Accepted { next, .. } => next,
        Screened::Rejected(_) => panic!("a harmless source was refused"),
    };
    let (file, writing) = prepared.store();
    assert_eq!(file.path, "files/__1/src/util.rs");
    let checking = match writing.written(None) {
        Stored::Check { dir, arguments, next } => {
            assert_eq!(dir, "files/__1");
            assert_eq!(arguments, vec!["check"]);
            next
        }
        _ => panic!("a module is checked"),
    };
    let resp = checking.checked(finished(true, "fine", ""));
    assert_eq!(resp, response("Módulo 'util.rs' salvo.\nStdOut Check: fine", ""));
}

#[test]
fn source_that_cannot_be_written_ends_the_request() {
    let payload = CodeRequest { code: "fn main() {}".to_string() };
    let (received, _) = verify_request(None, "1.1.1.1", None, payload);
    let prepared = match received.screen() {
        Screened::Accepted { next, .. } => next,
        Screened::Rejected(_) => panic!("a harmless source was refused"),
    };
    let (_, writing) = prepared.store();
    match writing.written(Some("read-only".to_string())) {
        Stored::Failed(resp) => assert_eq!(resp, response("", "Erro ao salvar arquivo main.rs: read-only")),
        _ => panic!("a failed write ends the request"),
    }
}

#[test]
fn failed_build_ends_the_request() {
    let payload = CodeRequest { code: "fn main() { x }".to_string() };
    let (received, _) = verify_request(None, "1.1.1.1", None, payload);
    let prepared = match received.screen() {
        Screened::Accepted { next, .. } => next,
        Screened::Rejected(_) => panic!("a harmless source was refused"),
    };
    let (_, writing) = prepared.store();
    let building = match writing.written(None) {
        Stored::Build { next, .. } => next,
        _ => panic!("the entry point is built"),
    };
    match building.built(false, finished(false, "{\"message\":{\"rendered\":\"error\"}}", "")) {
        Built::Reply(resp) => assert_eq!(resp, response("", "Erro de Compilação:\nerror\n")),
        Built::Run { .. } => panic!("nothing is run after a failed build"),
    }
}
