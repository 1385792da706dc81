use gcit::git::github_api::{
    classify_error, classify_status, poll_outcome, ref_to_reference, ApiFailure, GithubError,
    RefObject, Reference,
};
use gcit::git::PollOutcome;
use http::StatusCode;

#[test]
fn ref_to_reference_branch() {
    let r = ref_to_reference("refs/heads/master").unwrap();
    match r {
        Reference::Branch(b) => assert_eq!(b, "master"),
        other => panic!("expected Branch, got {other:?}"),
    }
}

#[test]
fn ref_to_reference_tag() {
    let r = ref_to_reference("refs/tags/v1.0").unwrap();
    match r {
        Reference::Tag(t) => assert_eq!(t, "v1.0"),
        other => panic!("expected Tag, got {other:?}"),
    }
}

#[test]
fn ref_to_reference_rejects_unknown_namespace() {
    let err = ref_to_reference("refs/notes/commits").unwrap_err();
    assert!(matches!(err, GithubError::InvalidRef { .. }), "got {err:?}");
    assert_eq!(
        err.to_text(),
        "invalid ref `refs/notes/commits`: octocrab get_ref only supports refs/heads/* and refs/tags/* — pass the full ref path with one of those prefixes",
    );
}

#[test]
fn ref_to_reference_rejects_empty_branch() {
    let err = ref_to_reference("refs/heads/").unwrap_err();
    assert!(matches!(err, GithubError::InvalidRef { .. }));
}

#[test]
fn ref_to_reference_rejects_empty_tag() {
    let err = ref_to_reference("refs/tags/").unwrap_err();
    assert_eq!(
        err.to_text(),
        "invalid ref `refs/tags/`: tag name is empty after stripping refs/tags/",
    );
}

#[test]
fn ref_to_reference_rejects_bare_name() {
    let err = ref_to_reference("master").unwrap_err();
    assert!(matches!(err, GithubError::InvalidRef { .. }));
}

#[test]
fn ref_to_reference_keeps_slashes_and_unicode() {
    match ref_to_reference("refs/heads/feature/größe").unwrap() {
        Reference::Branch(b) => assert_eq!(b, "feature/größe"),
        other => panic!("expected Branch, got {other:?}"),
    }
}

#[test]
fn classify_404_is_permanent() {
    let err = classify_status(StatusCode::NOT_FOUND.as_u16(), "Not Found");
    assert!(matches!(err, GithubError::Permanent { .. }), "got {err:?}");
    assert_eq!(err.to_text(), "permanent: ref not found: Not Found");
}

#[test]
fn classify_403_with_rate_limit_message_is_transient() {
    let err =
        classify_status(StatusCode::FORBIDDEN.as_u16(), "API rate limit exceeded for user");
    assert!(matches!(err, GithubError::Transient { .. }), "got {err:?}");
    let err = classify_status(403, "secondary RATE Limit");
    assert_eq!(err.to_text(), "transient: rate-limited (403): secondary RATE Limit");
}

#[test]
fn classify_403_without_rate_limit_message_is_permanent() {
    let err =
        classify_status(StatusCode::FORBIDDEN.as_u16(), "Resource not accessible by integration");
    match err {
        GithubError::Permanent { message } => {
            assert!(
                message.contains("Actions: read+write"),
                "actionable hint missing: {message}",
            );
        }
        other => panic!("expected Permanent, got {other:?}"),
    }
}

#[test]
fn classify_429_is_transient() {
    let err = classify_status(StatusCode::TOO_MANY_REQUESTS.as_u16(), "slow down");
    assert!(matches!(err, GithubError::Transient { .. }), "got {err:?}");
}

#[test]
fn classify_502_is_transient() {
    let err = classify_status(StatusCode::BAD_GATEWAY.as_u16(), "upstream gone");
    assert!(matches!(err, GithubError::Transient { .. }), "got {err:?}");
    assert_eq!(err.to_text(), "transient: github 5xx: 502 upstream gone");
}

#[test]
fn classify_422_is_permanent() {
    let err = classify_status(StatusCode::UNPROCESSABLE_ENTITY.as_u16(), "bad inputs");
    assert!(matches!(err, GithubError::Permanent { .. }), "got {err:?}");
    assert_eq!(err.to_text(), "permanent: github 422: bad inputs");
}

#[test]
fn classify_401_is_permanent() {
    let err = classify_status(StatusCode::UNAUTHORIZED.as_u16(), "bad token");
    assert!(matches!(err, GithubError::Permanent { .. }), "got {err:?}");
}

#[test]
fn failures_without_an_answer_are_transient() {
    let failure = ApiFailure::Transport { message: "connection reset".to_string() };
    assert_eq!(
        classify_error(&failure).to_text(),
        "transient: transport error: connection reset",
    );
    let failure = ApiFailure::Answer { status: 429, message: "slow".to_string() };
    assert_eq!(classify_error(&failure).to_text(), "transient: rate-limited (429): slow");
}

#[test]
fn answers_become_poll_outcomes() {
    let hex = "deadbeefcafe1234567890abcdef1234567890ab";
    for object in [
        RefObject::Commit { sha: hex.to_string() },
        RefObject::Tag { sha: hex.to_string() },
    ] {
        match poll_outcome("refs/heads/main", Ok(object)) {
            Ok(PollOutcome::Refreshed { sha }) => assert_eq!(sha.to_hex(), hex),
            other => panic!("expected Refreshed, got {other:?}"),
        }
    }
    let missing = ApiFailure::Answer { status: 404, message: "Not Found".to_string() };
    assert!(matches!(poll_outcome("r", Err(missing)), Ok(PollOutcome::UnbornRef)));
    let broken = ApiFailure::Answer { status: 500, message: "oops".to_string() };
    assert_eq!(
        poll_outcome("r", Err(broken)).unwrap_err().to_text(),
        "transient: github 5xx: 500 oops",
    );
    assert_eq!(
        poll_outcome("refs/heads/main", Ok(RefObject::Other)).unwrap_err().to_text(),
        "permanent: unrecognised ref object type for refs/heads/main; gcit only handles commit + tag",
    );
    assert_eq!(
        poll_outcome("r", Ok(RefObject::Commit { sha: "abc".to_string() })).unwrap_err().to_text(),
        "permanent: could not parse SHA \"abc\" from GitHub: A hash sized 3 hexadecimal characters is invalid",
    );
}
