use gto_core::tasks::{parse_eval_texassolver_args, parse_timeout_secs, EvalTexasSolverArgs};

#[test]
fn parse_timeout_secs_accepts_empty_arguments() {
    assert_eq!(parse_timeout_secs(Vec::new()).unwrap(), None);
}

#[test]
fn parse_timeout_secs_accepts_valid_override() {
    assert_eq!(
        parse_timeout_secs(vec!["--timeout-secs".into(), "15".into()]).unwrap(),
        Some(15)
    );
}

#[test]
fn parse_timeout_secs_rejects_zero_and_bad_shapes() {
    assert_eq!(
        parse_timeout_secs(vec!["--timeout-secs".into(), "0".into()])
            .unwrap_err()
            .to_string(),
        "timeout value must be greater than zero"
    );
    assert_eq!(
        parse_timeout_secs(vec!["--bad".into(), "10".into()])
            .unwrap_err()
            .to_string(),
        "expected optional arguments in the form `--timeout-secs <seconds>`"
    );
    assert_eq!(
        parse_timeout_secs(vec!["--timeout-secs".into(), "abc".into()])
            .unwrap_err()
            .to_string(),
        "timeout value must be a positive integer"
    );
}

#[test]
fn parse_eval_texassolver_args_accepts_required_fields() {
    assert_eq!(
        parse_eval_texassolver_args(vec![
            "--suite".into(),
            "smoke".into(),
            "--input".into(),
            "fixtures/eval/texassolver/smoke_reference.json".into(),
            "--output-dir".into(),
            "artifacts/eval/texassolver/smoke".into(),
        ])
        .unwrap(),
        EvalTexasSolverArgs {
            suite: "smoke".into(),
            input: "fixtures/eval/texassolver/smoke_reference.json".into(),
            output_dir: Some("artifacts/eval/texassolver/smoke".into()),
        }
    );
}

#[test]
fn parse_eval_texassolver_args_rejects_unknown_tokens_and_missing_fields() {
    assert_eq!(
        parse_eval_texassolver_args(vec!["--suite".into(), "smoke".into()])
            .unwrap_err()
            .to_string(),
        "missing required `--input <path>`"
    );
    assert_eq!(
        parse_eval_texassolver_args(vec!["--bad".into(), "value".into()])
            .unwrap_err()
            .to_string(),
        "unknown eval-texassolver argument `--bad`"
    );
}

#[test]
fn timeout_overrides_accept_a_plus_sign_and_refuse_overflow() {
    assert_eq!(
        parse_timeout_secs(vec!["--timeout-secs".into(), "+30".into()]).unwrap(),
        Some(30)
    );
    assert!(parse_timeout_secs(vec!["--timeout-secs".into(), "18446744073709551616".into()]).is_err());
    assert!(parse_timeout_secs(vec!["--timeout-secs".into()]).is_err());
}

#[test]
fn eval_arguments_skip_timeouts_and_miss_a_suite() {
    assert_eq!(
        parse_eval_texassolver_args(vec![
            "--timeout-secs".into(),
            "5".into(),
            "--input".into(),
            "refs.json".into(),
        ])
        .unwrap_err()
        .to_string(),
        "missing required `--suite <name>`"
    );
    let args = parse_eval_texassolver_args(vec![
        "--input".into(),
        "refs.json".into(),
        "--suite".into(),
        "smoke".into(),
    ])
    .unwrap();
    assert_eq!(args.output_dir, None);
    assert!(parse_eval_texassolver_args(vec!["--input".into(), "a".into(), "--suite".into()]).is_err());
}
