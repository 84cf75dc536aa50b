use framework::action::helper::{text, Responsable};
use framework::app::{
    error_message, found_or_not_found, settle, Outcome, error_page_message, no_response_error, not_found_error, panic_error,
    wants_json, Env as AppSettings, TokioExecutor,
};
use framework::env::{AppEnv, Env};
use framework::http::error::HttpError;
use framework::template::vite::ViteManifestChunk;

#[test]
fn http_error_fields_and_text() {
    let e = HttpError::new(404, "Page not found".to_string());
    assert_eq!(e.code(), 404);
    assert_eq!(e.message(), "Page not found");
    assert_eq!(e.to_string(), "Http error [404]: Page not found");
    assert_eq!(HttpError::new(0, String::new()).to_string(), "Http error [0]: ");
    assert_eq!(HttpError::new(65535, "x".into()).to_string(), "Http error [65535]: x");
}

#[test]
fn error_messages_of_codes() {
    assert_eq!(error_message(400), "Bad request");
    assert_eq!(error_message(401), "Forbidden");
    assert_eq!(error_message(403), "Unauthorized");
    assert_eq!(error_message(404), "Not found");
    assert_eq!(error_message(418), "I'm a teapot");
    assert_eq!(error_message(451), "Unavailable for legal reasons");
    assert_eq!(error_message(499), "Client error");
    assert_eq!(error_message(420), "Client error");
    assert_eq!(error_message(500), "Server error");
    assert_eq!(error_message(511), "Network authentication required");
    assert_eq!(error_message(509), "Something went wrong");
    assert_eq!(error_message(599), "Something went wrong");
    assert_eq!(error_message(200), "Unknown error (200).");
    assert_eq!(error_message(0), "Unknown error (0).");
    assert_eq!(error_message(600), "Unknown error (600).");
}

#[test]
fn error_page_message_local_and_not() {
    let e = HttpError::new(405, "custom".to_string());
    assert_eq!(error_page_message(true, &e), "custom");
    assert_eq!(error_page_message(false, &e), "Method not allowed");
}

#[test]
fn request_errors() {
    assert!(wants_json(Some("application/json")));
    assert!(!wants_json(Some("text/html")));
    assert!(!wants_json(Some("application/json; charset=utf-8")));
    assert!(!wants_json(None));
    let e = not_found_error();
    assert_eq!((e.code(), e.message().as_str()), (404, "Page not found"));
    let e = no_response_error(true);
    assert_eq!((e.code(), e.message().as_str()), (404, "Endpoint not found."));
    let e = no_response_error(false);
    assert_eq!((e.code(), e.message().as_str()), (404, "Page not found."));
    let e = panic_error(Some("boom".to_string()));
    assert_eq!((e.code(), e.message().as_str()), (500, "boom"));
    let e = panic_error(None);
    assert_eq!((e.code(), e.message().as_str()), (500, "Unknown panic."));
}

#[test]
fn app_env_from_name() {
    assert_eq!(AppEnv::from("local".to_string()), AppEnv::Local);
    assert_eq!(AppEnv::from("LoCaL".to_string()), AppEnv::Local);
    assert_eq!(AppEnv::from("PRODUCTION".to_string()), AppEnv::Production);
    assert_eq!(AppEnv::from("Staging".to_string()), AppEnv::Other("Staging".to_string()));
    assert_eq!(AppEnv::from("locals".to_string()), AppEnv::Other("locals".to_string()));
}

#[test]
fn env_init_and_bools() {
    assert!(Env::parse_bool("TRUE"));
    assert!(!Env::parse_bool("false"));
    assert!(!Env::parse_bool("FaLsE"));
    let env = Env::init("Production".to_string(), "True");
    assert_eq!(env.env(), &AppEnv::Production);
    assert!(env.debug());
    assert!(env.is_production());
    assert!(!env.is_local());
    let env = Env::init("local".to_string(), "false");
    assert!(env.is_local());
    assert!(!env.debug());
}

#[test]
fn settings_and_executor() {
    let settings = AppSettings::new("local".to_string(), true, Some("http://localhost:5173".to_string()));
    assert_eq!(settings.env, "local");
    assert!(settings.debug);
    assert_eq!(settings.vite_url.as_deref(), Some("http://localhost:5173"));
    let _executor = TokioExecutor::new();
}

#[test]
fn text_answers() {
    match text("hello".to_string()) {
        Ok(Responsable::Text(s)) => assert_eq!(s, "hello"),
        _ => panic!("expected text"),
    }
}

#[test]
fn vite_asset_path() {
    let chunk = ViteManifestChunk {
        src: Some("main.ts".to_string()),
        file: "assets/main-123.js".to_string(),
        css: None,
        assets: None,
        is_entry: Some(true),
        name: None,
        is_dynamic_entry: None,
        imports: None,
        dynamic_imports: None,
    };
    assert_eq!(chunk.asset_path(), "public/dist/assets/main-123.js");
}

#[test]
fn settling_outcomes() {
    assert_eq!(settle(Outcome::Answered(7u8), true).ok(), Some(7));
    let (e, json) = settle(Outcome::<u8>::Failed(HttpError::new(403, "no".into())), true).unwrap_err();
    assert_eq!((e.code(), e.message().as_str(), json), (403, "no", true));
    let (e, json) = settle(Outcome::<u8>::Unanswered, true).unwrap_err();
    assert_eq!((e.code(), e.message().as_str(), json), (404, "Endpoint not found.", true));
    let (e, json) = settle(Outcome::<u8>::Unanswered, false).unwrap_err();
    assert_eq!((e.code(), e.message().as_str(), json), (404, "Page not found.", false));
    let (e, json) = settle(Outcome::<u8>::Panicked(Some("oops".into())), true).unwrap_err();
    assert_eq!((e.code(), e.message().as_str(), json), (500, "oops", false));
    let (e, json) = settle(Outcome::<u8>::Panicked(None), true).unwrap_err();
    assert_eq!((e.code(), e.message().as_str(), json), (500, "Unknown panic.", false));
    assert_eq!(found_or_not_found(Ok(Some(3u8))).ok(), Some(3));
    let e = found_or_not_found::<u8>(Ok(None)).unwrap_err();
    assert_eq!((e.code(), e.message().as_str()), (404, "Page not found"));
    let e = found_or_not_found::<u8>(Err(HttpError::new(405, "x".into()))).unwrap_err();
    assert_eq!(e.code(), 405);
}
