use twitch_highlights::twitch::{
    authentication_request_url, bearer_header_value, build_query_params, build_videos_url,
    unwrap_twitch_error, unwrap_twitch_reply, TwitchError, TwitchErrorResponse, TwitchReply,
};

#[test]
fn str_items() {
    let items = ["mads", "matilde", "morten"];

    assert_eq!(
        build_query_params(items.to_vec(), "&and="),
        String::from("mads&and=matilde&and=morten")
    )
}

#[test]
fn string_items() {
    let items = vec![
        "mads".to_string(),
        "matilde".to_string(),
        "morten".to_string(),
    ];

    assert_eq!(
        build_query_params(items, "&and="),
        String::from("mads&and=matilde&and=morten")
    )
}

#[test]
fn u8_items() {
    let items = std::collections::LinkedList::from([1u8, 2u8, 3u8]);

    assert_eq!(
        build_query_params(items.into_iter().collect(), "&and="),
        String::from("1&and=2&and=3")
    )
}

#[test]
fn u16_items() {
    let items = std::collections::VecDeque::from([1u16, 2u16, 3u16]);

    assert_eq!(
        build_query_params(items.into_iter().collect(), "&and="),
        String::from("1&and=2&and=3")
    )
}

#[test]
fn u32_items() {
    let items = [1u32, 2u32, 3u32];

    assert_eq!(
        build_query_params(items.to_vec(), "&and="),
        String::from("1&and=2&and=3")
    )
}

#[test]
fn u64_items() {
    let items = [1u64, 2u64, 3u64];

    assert_eq!(
        build_query_params(items.to_vec(), "&and="),
        String::from("1&and=2&and=3")
    )
}

#[test]
fn query_params_edge_cases() {
    assert_eq!(build_query_params(Vec::<u64>::new(), ","), "");
    assert_eq!(build_query_params(vec![0u64], ","), "0");
    assert_eq!(
        build_query_params(vec![u64::MAX, 10, 1000], ","),
        "18446744073709551615,10,1000"
    );
}

fn reply(status: i32, error: Option<&str>, message: Option<&str>) -> TwitchErrorResponse {
    TwitchErrorResponse {
        status,
        error: error.map(|s| s.to_string()),
        message: message.map(|s| s.to_string()),
    }
}

#[test]
fn twitch_errors_by_status() {
    match unwrap_twitch_error(reply(400, Some("Bad Request"), Some("invalid client"))) {
        TwitchError::BadRequest(m) => assert_eq!("400 Bad Request invalid client", m),
        other => panic!("{:?}", other),
    }
    assert!(matches!(unwrap_twitch_error(reply(401, None, None)), TwitchError::Unauthorized(m) if m == "401  "));
    assert!(matches!(unwrap_twitch_error(reply(403, None, None)), TwitchError::Forbidden(_)));
    assert!(matches!(unwrap_twitch_error(reply(404, None, None)), TwitchError::NotFound(_)));
    assert!(matches!(unwrap_twitch_error(reply(409, None, None)), TwitchError::Conflict(_)));
    assert!(matches!(unwrap_twitch_error(reply(429, None, None)), TwitchError::TooManyRequests(_)));
    match unwrap_twitch_error(reply(-500, Some("x"), None)) {
        TwitchError::UnknownError(m) => assert_eq!("-500 x ", m),
        other => panic!("{:?}", other),
    }
    match unwrap_twitch_error(reply(i32::MIN, None, Some("y"))) {
        TwitchError::UnknownError(m) => assert_eq!("-2147483648  y", m),
        other => panic!("{:?}", other),
    }
}

#[test]
fn twitch_error_texts() {
    assert_eq!("Error: Missing Twitch client id", TwitchError::MissingClientId.to_string());
    assert_eq!("Error: Missing Twitch client secret", TwitchError::MissingClientSecret.to_string());
    assert_eq!("Error: Missing Twitch access token", TwitchError::MissingAccessToken.to_string());
    assert_eq!(
        "Error: Invalid parameters first",
        TwitchError::InvalidParameters("first".to_string()).to_string()
    );
    assert_eq!("nope", TwitchError::Forbidden("nope".to_string()).to_string());
}

#[test]
fn missing_credentials_are_refused() {
    assert!(matches!(authentication_request_url("", "secret"), Err(TwitchError::MissingClientId)));
    assert!(matches!(authentication_request_url("", ""), Err(TwitchError::MissingClientId)));
    assert!(matches!(authentication_request_url("id", ""), Err(TwitchError::MissingClientSecret)));
    assert_eq!(
        "https://id.twitch.tv/oauth2/token?client_id=id&client_secret=secret&grant_type=client_credentials&state=def",
        authentication_request_url("id", "secret").unwrap()
    );
}

#[test]
fn request_texts() {
    assert_eq!(
        "https://api.twitch.tv/helix/videos?first=20&type=archive&user_id=31239503",
        build_videos_url("31239503")
    );
    assert_eq!("Bearer abc", bearer_header_value("abc"));
}

#[test]
fn twitch_replies_are_unwrapped() {
    assert_eq!(7, unwrap_twitch_reply(TwitchReply::Success(7u32)).unwrap());

    match unwrap_twitch_reply::<u32>(TwitchReply::Failure(reply(403, Some("Forbidden"), Some("no")))) {
        Err(TwitchError::Forbidden(m)) => assert_eq!("403 Forbidden no", m),
        other => panic!("{:?}", other),
    }
    match unwrap_twitch_reply::<u32>(TwitchReply::Failure(reply(500, None, None))) {
        Err(TwitchError::UnknownError(m)) => assert_eq!("500  ", m),
        other => panic!("{:?}", other),
    }
}
