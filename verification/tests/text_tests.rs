use game_of_life::logging::{
    ingest_frontend_log, FrontendLevel, FrontendLogPayload, IngestOutcome, LogLevel,
};
use game_of_life::middleware::{build_client_cookie, find_client_cookie, RequestContext};
use game_of_life::text_grid::{
    ascii_art_to_grid, check_text_request, parse_text_file, TextError, TextFileError,
};

#[test]
fn parse_text_file_reads_rows_and_pads() {
    let res = parse_text_file("010\n1 1\n01").expect("valid file");
    assert_eq!(res.width, 3);
    assert_eq!(res.height, 3);
    // the second row loses its space, the third is zero-padded on the right
    assert_eq!(res.grid, vec![0, 1, 0, 1, 1, 0, 0, 1, 0]);
}

#[test]
fn parse_text_file_skips_blank_lines() {
    let res = parse_text_file("\n  \n11\n\n00\n\t\n").expect("valid file");
    assert_eq!(res.width, 2);
    assert_eq!(res.height, 2);
    assert_eq!(res.grid, vec![1, 1, 0, 0]);
}

#[test]
fn parse_text_file_rejects_empty_input() {
    assert_eq!(parse_text_file("").unwrap_err(), TextFileError::Empty);
    assert_eq!(parse_text_file(" \n\t \n").unwrap_err(), TextFileError::Empty);
}

#[test]
fn parse_text_file_reports_the_offending_line() {
    assert_eq!(
        parse_text_file("01x").unwrap_err(),
        TextFileError::InvalidCharacter(1)
    );
    // blank lines do not count toward the reported position
    assert_eq!(
        parse_text_file("01\n\n0a1\n11").unwrap_err(),
        TextFileError::InvalidCharacter(2)
    );
}

#[test]
fn ascii_art_is_padded_with_a_border() {
    let res = ascii_art_to_grid("11\n01", 1).expect("valid art");
    assert_eq!(res.width, 4);
    assert_eq!(res.height, 4);
    assert_eq!(
        res.grid,
        vec![0, 0, 0, 0, 0, 1, 1, 0, 0, 0, 1, 0, 0, 0, 0, 0]
    );
}

#[test]
fn ascii_art_without_buffer_and_with_trim() {
    let res = ascii_art_to_grid("\n10\n1\n", 0).expect("valid art");
    assert_eq!(res.width, 2);
    assert_eq!(res.height, 2);
    assert_eq!(res.grid, vec![1, 0, 1, 0]);
}

#[test]
fn empty_art_is_rejected() {
    assert_eq!(ascii_art_to_grid("", 2).unwrap_err(), TextError::EmptyArt);
    assert_eq!(
        ascii_art_to_grid(" \n \t\n", 2).unwrap_err(),
        TextError::EmptyArt
    );
}

#[test]
fn oversized_padding_is_rejected() {
    assert_eq!(
        ascii_art_to_grid("1", usize::MAX).unwrap_err(),
        TextError::GridTooLarge
    );
    assert_eq!(
        ascii_art_to_grid("1", usize::MAX / 2).unwrap_err(),
        TextError::GridTooLarge
    );
}

#[test]
fn text_requests_are_screened_by_length() {
    assert_eq!(check_text_request("").unwrap_err(), TextError::EmptyText);
    let long = "x".repeat(51);
    assert_eq!(
        check_text_request(&long),
        Err(TextError::TextTooLong)
    );
    assert!(check_text_request("hello world").is_ok());
    assert!(check_text_request(&"y".repeat(50)).is_ok());
}

fn context() -> RequestContext {
    RequestContext {
        request_id: String::from("req-1"),
        client_id: String::from("client-1"),
        path: String::from("/api/game-of-life/state"),
        user_agent: String::from("test-agent"),
        referer: String::from("-"),
        ip: String::from("127.0.0.1"),
    }
}

fn payload(message: &str) -> FrontendLogPayload {
    FrontendLogPayload {
        level: None,
        message: String::from(message),
        component: None,
        page: None,
        request_id: None,
        client_id: None,
        context: None,
    }
}

#[test]
fn blank_messages_are_bad_requests() {
    let ctx = context();
    assert!(matches!(
        ingest_frontend_log(&payload(""), &ctx),
        IngestOutcome::BadRequest
    ));
    assert!(matches!(
        ingest_frontend_log(&payload("  \t\n"), &ctx),
        IngestOutcome::BadRequest
    ));
}

#[test]
fn oversized_messages_and_contexts_are_refused() {
    let ctx = context();
    let long_message = "m".repeat(2001);
    assert!(matches!(
        ingest_frontend_log(&payload(&long_message), &ctx),
        IngestOutcome::PayloadTooLarge
    ));
    let mut with_context = payload("fine");
    with_context.context = Some("c".repeat(10001));
    assert!(matches!(
        ingest_frontend_log(&with_context, &ctx),
        IngestOutcome::PayloadTooLarge
    ));
    let mut small_context = payload("fine");
    small_context.context = Some(String::from("{\"k\":1}"));
    assert!(matches!(
        ingest_frontend_log(&small_context, &ctx),
        IngestOutcome::Accepted(_)
    ));
}

#[test]
fn accepted_lines_default_their_level_and_ids() {
    let ctx = context();
    match ingest_frontend_log(&payload("hello"), &ctx) {
        IngestOutcome::Accepted(rec) => {
            assert_eq!(rec.level, LogLevel::Info);
            assert_eq!(rec.request_id, "req-1");
            assert_eq!(rec.client_id, "client-1");
        },
        _ => panic!("expected the line to be accepted"),
    }
    let mut own = payload("hello");
    own.level = Some(FrontendLevel::Error);
    own.request_id = Some(String::from("req-9"));
    own.client_id = Some(String::from("client-9"));
    match ingest_frontend_log(&own, &ctx) {
        IngestOutcome::Accepted(rec) => {
            assert_eq!(rec.level, LogLevel::Error);
            assert_eq!(rec.request_id, "req-9");
            assert_eq!(rec.client_id, "client-9");
        },
        _ => panic!("expected the line to be accepted"),
    }
}

#[test]
fn levels_map_and_name_themselves() {
    assert_eq!(FrontendLevel::Debug.as_level(), LogLevel::Debug);
    assert_eq!(FrontendLevel::Info.as_level(), LogLevel::Info);
    assert_eq!(FrontendLevel::Warn.as_level(), LogLevel::Warn);
    assert_eq!(FrontendLevel::Error.as_level(), LogLevel::Error);
    assert_eq!(FrontendLevel::Debug.as_str(), "debug");
    assert_eq!(FrontendLevel::Info.as_str(), "info");
    assert_eq!(FrontendLevel::Warn.as_str(), "warn");
    assert_eq!(FrontendLevel::Error.as_str(), "error");
}

#[test]
fn client_cookie_is_built_verbatim() {
    assert_eq!(
        build_client_cookie("abc-123"),
        "portfolio_client_id=abc-123; Path=/; Max-Age=31536000; SameSite=Lax"
    );
}

#[test]
fn client_cookie_is_found_in_a_header() {
    assert_eq!(
        find_client_cookie("foo=bar; portfolio_client_id=abc123; x=y"),
        Some(String::from("abc123"))
    );
    assert_eq!(
        find_client_cookie("portfolio_client_id=first; portfolio_client_id=second"),
        Some(String::from("first"))
    );
    assert_eq!(find_client_cookie("foo=bar; x=y"), None);
    assert_eq!(find_client_cookie(""), None);
    assert_eq!(
        find_client_cookie("  portfolio_client_id=spaced  "),
        Some(String::from("spaced"))
    );
}
