use stratum_tunnel::wire::classify_line;
use stratum_tunnel::wire::parse_milli;
use stratum_tunnel::wire::Event;

#[test]
fn authorize_yields_username() {
    let e = classify_line("{\"id\":1,\"method\":\"mining.authorize\",\"params\":[\"w1.rig\",\"x\"]}");
    match e {
        Event::ClientAuthorize { username } => assert_eq!(username, "w1.rig"),
        _ => panic!("expected an authorize event"),
    }
}

#[test]
fn authorize_without_params_is_ignored() {
    let e = classify_line("{\"id\":1,\"method\":\"mining.authorize\"}");
    assert!(matches!(e, Event::Ignore));
    let e = classify_line("{\"id\":1,\"method\":\"mining.authorize\",\"params\":[5]}");
    assert!(matches!(e, Event::Ignore));
}

#[test]
fn submit_yields_job_id_from_second_param() {
    let e = classify_line(
        "{\"id\":2,\"method\":\"mining.submit\",\"params\":[\"w1.rig\",\"job42\",\"00\",\"0\",\"0\"]}",
    );
    match e {
        Event::ClientSubmit { job_id } => assert_eq!(job_id.as_deref(), Some("job42")),
        _ => panic!("expected a submit event"),
    }
}

#[test]
fn submit_without_job_id_still_counts_as_submit() {
    let e = classify_line("{\"id\":2,\"method\":\"mining.submit\",\"params\":[\"w1.rig\"]}");
    assert!(matches!(e, Event::ClientSubmit { job_id: None }));
}

#[test]
fn notify_yields_job_id_from_first_param() {
    let e = classify_line("{\"id\":null,\"method\":\"mining.notify\",\"params\":[\"job7\",\"aa\"]}");
    match e {
        Event::PoolNotify { job_id } => assert_eq!(job_id, "job7"),
        _ => panic!("expected a notify event"),
    }
}

#[test]
fn set_difficulty_parses_whole_and_fractional_values() {
    let e = classify_line("{\"id\":null,\"method\":\"mining.set_difficulty\",\"params\":[1024]}");
    assert!(matches!(e, Event::PoolSetDifficulty { milli: 1024000 }));
    let e = classify_line("{\"id\":null,\"method\":\"mining.set_difficulty\",\"params\":[0.5]}");
    assert!(matches!(e, Event::PoolSetDifficulty { milli: 500 }));
}

#[test]
fn replies_carry_result_and_error_presence() {
    let e = classify_line("{\"id\":2,\"result\":true,\"error\":null}");
    assert!(matches!(e, Event::PoolReply { ok: Some(true), error_nonnull: false }));
    let e = classify_line("{\"id\":2,\"result\":false,\"error\":[-1,\"low diff\",null]}");
    assert!(matches!(e, Event::PoolReply { ok: Some(false), error_nonnull: true }));
}

#[test]
fn reply_without_id_is_ignored() {
    let e = classify_line("{\"result\":true,\"error\":null}");
    assert!(matches!(e, Event::Ignore));
}

#[test]
fn error_only_reply_is_still_a_reply() {
    let e = classify_line("{\"id\":9,\"result\":null,\"error\":[20,\"other\",null]}");
    assert!(matches!(e, Event::PoolReply { ok: None, error_nonnull: true }));
}

#[test]
fn malformed_json_is_ignored() {
    assert!(matches!(classify_line("not json at all"), Event::Ignore));
    assert!(matches!(classify_line(""), Event::Ignore));
    assert!(matches!(classify_line("{\"method\":"), Event::Ignore));
}

#[test]
fn unknown_methods_are_ignored() {
    let e = classify_line("{\"method\":\"mining.subscribe\",\"params\":[]}");
    assert!(matches!(e, Event::Ignore));
}

#[test]
fn decimal_to_thousandths() {
    assert_eq!(parse_milli("1024"), Some(1_024_000));
    assert_eq!(parse_milli("0.5"), Some(500));
    assert_eq!(parse_milli("0.125"), Some(125));
    assert_eq!(parse_milli("3.14159"), Some(3141));
    assert_eq!(parse_milli("7."), Some(7000));
    assert_eq!(parse_milli("0"), Some(0));
}

#[test]
fn decimal_rejects_other_shapes() {
    assert_eq!(parse_milli(""), None);
    assert_eq!(parse_milli(".5"), None);
    assert_eq!(parse_milli("-1"), None);
    assert_eq!(parse_milli("1e3"), None);
    assert_eq!(parse_milli("12a"), None);
    assert_eq!(parse_milli("1.2.3"), None);
    assert_eq!(parse_milli("99999999999999999999999999"), None);
}
