use samplegraph::error::{ClientFailure, Error, ProviderResponse};

#[test]
fn success_gives_the_payload() {
    let response: ProviderResponse<u32> = ProviderResponse::Success { response: 7 };
    assert_eq!(Error::from_genius_response(response), Ok(7));
}

#[test]
fn structured_error_is_remote_rejected() {
    let response: ProviderResponse<u32> = ProviderResponse::Error {
        status: 404,
        message: String::from("not found"),
        detail: Some(String::from("no such song")),
    };
    assert_eq!(
        Error::from_genius_response(response),
        Err(Error::RemoteRejected {
            status: 404,
            message: String::from("not found"),
            detail: Some(String::from("no such song")),
        })
    );
}

#[test]
fn structured_error_without_detail() {
    let response: ProviderResponse<u32> =
        ProviderResponse::Error { status: 401, message: String::from("denied"), detail: None };
    assert_eq!(
        Error::from_genius_response(response),
        Err(Error::RemoteRejected { status: 401, message: String::from("denied"), detail: None })
    );
}

#[test]
fn unstructured_error_is_remote_malformed() {
    let response: ProviderResponse<u32> = ProviderResponse::Other {
        error: String::from("invalid_token"),
        error_description: String::from("the token is no good"),
    };
    assert_eq!(
        Error::from_genius_response(response),
        Err(Error::RemoteMalformed {
            error: String::from("invalid_token"),
            error_description: String::from("the token is no good"),
        })
    );
}

#[test]
fn rate_limit_of_the_client_is_rate_limited() {
    assert_eq!(Error::from(ClientFailure::RateLimited), Error::RateLimited);
}

#[test]
fn general_failure_of_the_client_is_transport() {
    assert_eq!(
        Error::from(ClientFailure::General(String::from("connection reset"))),
        Error::Transport(String::from("connection reset"))
    );
}

#[test]
fn reply_is_classified() {
    let ok: Result<ProviderResponse<u32>, ClientFailure> =
        Ok(ProviderResponse::Success { response: 3 });
    assert_eq!(Error::from_reply(ok), Ok(3));
    let rejected: Result<ProviderResponse<u32>, ClientFailure> =
        Ok(ProviderResponse::Error { status: 500, message: String::from("down"), detail: None });
    assert_eq!(
        Error::from_reply(rejected),
        Err(Error::RemoteRejected { status: 500, message: String::from("down"), detail: None })
    );
    let limited: Result<ProviderResponse<u32>, ClientFailure> = Err(ClientFailure::RateLimited);
    assert_eq!(Error::from_reply(limited), Err(Error::RateLimited));
    let broken: Result<ProviderResponse<u32>, ClientFailure> =
        Err(ClientFailure::General(String::from("timeout")));
    assert_eq!(Error::from_reply(broken), Err(Error::Transport(String::from("timeout"))));
}

#[test]
fn status_codes() {
    assert_eq!(Error::ResourcesExhausted.status_code(), 503);
    assert_eq!(Error::RateLimited.status_code(), 429);
    assert_eq!(Error::Transport(String::from("x")).status_code(), 500);
    assert_eq!(
        Error::RemoteRejected { status: 404, message: String::from("m"), detail: None }
            .status_code(),
        500
    );
    assert_eq!(
        Error::RemoteMalformed { error: String::from("e"), error_description: String::from("d") }
            .status_code(),
        500
    );
}

#[test]
fn messages() {
    assert_eq!(Error::ResourcesExhausted.message(), "Server resources exhausted");
    assert_eq!(Error::RateLimited.message(), "Genius client error: rate limited");
    assert_eq!(Error::Transport(String::from("timeout")).message(), "Transport error: timeout");
    assert_eq!(
        Error::RemoteRejected { status: 404, message: String::from("not found"), detail: None }
            .message(),
        "Genius response error: not found"
    );
    assert_eq!(
        Error::RemoteRejected {
            status: 404,
            message: String::from("not found"),
            detail: Some(String::from("no such song")),
        }
        .message(),
        "Genius response error: not found - no such song"
    );
    assert_eq!(
        Error::RemoteMalformed {
            error: String::from("invalid_token"),
            error_description: String::from("expired"),
        }
        .message(),
        "Other genius error: invalid_token - expired"
    );
}

#[test]
fn duplicate_is_equal() {
    let errors = vec![
        Error::ResourcesExhausted,
        Error::RateLimited,
        Error::Transport(String::from("t")),
        Error::RemoteRejected {
            status: 418,
            message: String::from("teapot"),
            detail: Some(String::from("short and stout")),
        },
        Error::RemoteRejected { status: 418, message: String::from("teapot"), detail: None },
        Error::RemoteMalformed { error: String::from("e"), error_description: String::from("d") },
    ];
    for error in errors {
        assert_eq!(error.duplicate(), error);
    }
}
