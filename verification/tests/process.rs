use infinigit::process::{
    call_settings, config, config_args, configure, contains_str, decode_response, icp_call_args,
    interactive_outcome, prompt_outcome, run_outcome, Output, Tool, INVALID_RESPONSE,
};

fn out(success: bool, stdout: &str, stderr: &str) -> Output {
    Output { success, stdout: stdout.into(), stderr: stderr.into() }
}

#[test]
fn captured_runs_report_trimmed_output_or_error() {
    assert_eq!(run_outcome("icp", Ok(out(true, "  aaaaa-aa\n", "noise"))), Ok("aaaaa-aa".into()));
    assert_eq!(run_outcome("icp", Ok(out(false, "x", "\n boom \n"))), Err("boom".into()));
    assert_eq!(run_outcome("icp", Ok(out(false, "x", " \n"))), Err("icp failed".into()));
    assert_eq!(
        run_outcome("git", Err("No such file".into())),
        Err("cannot run git: No such file".into())
    );
}

#[test]
fn prompted_and_interactive_runs_have_their_own_messages() {
    assert_eq!(prompt_outcome("icp", Ok((true, "4a4b\n".into()))), Ok("4a4b".into()));
    assert_eq!(prompt_outcome("icp", Ok((false, "4a4b".into()))), Err("icp failed".into()));
    assert_eq!(prompt_outcome("icp", Err("gone".into())), Err("cannot run icp: gone".into()));
    assert_eq!(interactive_outcome("git", Ok(true)), Ok(String::new()));
    assert_eq!(
        interactive_outcome("icp", Ok(false)),
        Err("icp authentication failed".into())
    );
    assert_eq!(interactive_outcome("git", Err("gone".into())), Err("cannot run git: gone".into()));
}

#[test]
fn git_configuration_lookups_fall_back() {
    assert_eq!(config_args("infinigit.identity"), vec!["config", "--global", "--get", "infinigit.identity"]);
    assert_eq!(config(Ok("work".into()), "infinigit"), "work");
    assert_eq!(config(Err("missing".into()), "infinigit"), "infinigit");
}

#[test]
fn configuring_an_identity_records_it_and_the_origins() {
    assert_eq!(
        configure("work", Some("https://id.ai"), Some("https://code.example")),
        vec![
            vec!["config", "--global", "infinigit.identity", "work"],
            vec!["config", "--global", "infinigit.auth-origin", "https://id.ai"],
            vec!["config", "--global", "infinigit.app-origin", "https://code.example"],
        ]
    );
    assert_eq!(
        configure("work", None, None),
        vec![vec!["config", "--global", "infinigit.identity", "work"]]
    );
}

#[test]
fn canister_calls_encode_the_payload_as_hex() {
    assert_eq!(
        icp_call_args("ryjl3-tyaaa-aaaaa-aaaba-cai", "get_vault", &[0x44, 0x49, 0x00, 0xff], true, "work", "ic", "mainnet"),
        vec![
            "canister", "call", "ryjl3-tyaaa-aaaaa-aaaba-cai", "get_vault", "444900ff",
            "--args-format", "hex", "--output", "hex", "--identity", "work", "--network", "ic",
            "--query",
        ]
    );
    assert_eq!(
        icp_call_args("c", "m", &[], false, "i", "http://127.0.0.1:4943", "fetch"),
        vec![
            "canister", "call", "c", "m", "", "--args-format", "hex", "--output", "hex",
            "--identity", "i", "--network", "http://127.0.0.1:4943", "--root-key", "fetch",
        ]
    );
}

#[test]
fn canister_responses_are_decoded_from_hex() {
    assert_eq!(decode_response(" 4449444c00\n"), Ok(vec![0x44, 0x49, 0x44, 0x4c, 0x00]));
    assert_eq!(decode_response("ABff"), Ok(vec![0xab, 0xff]));
    assert_eq!(decode_response(""), Ok(vec![]));
    assert_eq!(decode_response("abc"), Err(INVALID_RESPONSE.to_string()));
    assert_eq!(decode_response("zz"), Err(INVALID_RESPONSE.to_string()));
}

#[test]
fn substrings_and_programs() {
    assert!(contains_str("http://x", "://"));
    assert!(!contains_str("ic", "://"));
    assert!(contains_str("abc", ""));
    assert_eq!(Tool::Git.program(), "git");
    assert_eq!(Tool::Icp.program(), "icp");
}

#[test]
fn call_settings_prefer_the_environment_then_git_then_defaults() {
    let unset = || Err::<String, String>("unset".into());
    assert_eq!(
        call_settings(unset(), None, unset(), None, unset()),
        ("infinigit".to_string(), "ic".to_string(), "mainnet".to_string())
    );
    assert_eq!(
        call_settings(
            Ok("work".into()),
            Some("http://127.0.0.1:4943".into()),
            Ok("ic".into()),
            None,
            Ok("fetch".into())
        ),
        ("work".to_string(), "http://127.0.0.1:4943".to_string(), "fetch".to_string())
    );
}
