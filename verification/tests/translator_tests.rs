use keytweak::engine::{join_translations, Engine};
use keytweak::protocol::Request;
use keytweak::translator::{Sidecar, TranslateStep};

fn engine() -> Engine {
    Engine::from_models(vec![
        ("en".to_string(), "ru".to_string()),
        ("ru".to_string(), "en".to_string()),
    ])
}

fn initialised() -> Sidecar {
    let mut sidecar = Sidecar::new(Some(engine()));
    let out = sidecar.handle_request(Request::Init { protocol_version: "1.0".to_string() });
    assert!(!out.stop);
    sidecar
}

#[test]
fn init_handshake_reports_ready_languages() {
    let mut sidecar = Sidecar::new(Some(engine()));
    let out = sidecar.handle_request(Request::Init { protocol_version: "1.0".to_string() });
    assert!(!out.stop);
    assert_eq!(out.responses.len(), 1);
    let r = &out.responses[0];
    assert_eq!(r.response_type.as_deref(), Some("init"));
    assert_eq!(r.protocol_version.as_deref(), Some("1.0"));
    assert_eq!(r.ready, Some(true));
    assert_eq!(r.languages, Some(vec!["en".to_string(), "ru".to_string()]));
    assert_eq!(
        r.capabilities,
        Some(vec!["translate".to_string(), "status".to_string()])
    );
    assert!(sidecar.init_received);
}

#[test]
fn init_without_engine_is_not_ready() {
    let mut sidecar = Sidecar::new(None);
    let out = sidecar.handle_request(Request::Init { protocol_version: "1.0".to_string() });
    assert_eq!(out.responses[0].ready, Some(false));
    assert_eq!(out.responses[0].languages, None);
}

#[test]
fn protocol_version_mismatch_stops() {
    let mut sidecar = Sidecar::new(Some(engine()));
    let out = sidecar.handle_request(Request::Init { protocol_version: "2.0".to_string() });
    assert!(out.stop);
    assert!(!sidecar.running);
    assert_eq!(out.responses.len(), 2);
    let err = out.responses[0].error.as_ref().unwrap();
    assert_eq!(err.code, "PROTOCOL_VERSION_MISMATCH");
    assert_eq!(err.message, "Expected 1.0, got 2.0");
    assert!(!err.recoverable);
    assert_eq!(out.responses[0].response_type.as_deref(), Some("init"));
    assert_eq!(out.responses[0].protocol_version.as_deref(), Some("1.0"));
    assert_eq!(out.responses[0].ready, Some(false));
    assert_eq!(out.responses[1].response_type.as_deref(), Some("shutdown"));
    assert_eq!(out.responses[1].reason.as_deref(), Some("protocol_version_mismatch"));
}

#[test]
fn requests_before_init_are_ignored() {
    let mut sidecar = Sidecar::new(Some(engine()));
    let out = sidecar.handle_request(Request::Status { id: 1 });
    assert!(out.responses.is_empty());
    assert!(!out.stop);
    let out = sidecar.handle_request(Request::Translate {
        id: 2,
        q: "hello".to_string(),
        source: "en".to_string(),
        target: "ru".to_string(),
    });
    assert!(out.responses.is_empty());
    assert!(out.job.is_none());
}

#[test]
fn translate_hands_sentences_to_the_model() {
    let mut sidecar = initialised();
    let out = sidecar.handle_request(Request::Translate {
        id: 7,
        q: "hello. How are you?".to_string(),
        source: "en".to_string(),
        target: "ru".to_string(),
    });
    let job = out.job.expect("a job for the model");
    assert_eq!(job.id, 7);
    assert_eq!(job.sentences, vec!["hello.".to_string(), "How are you?".to_string()]);
    let r = Sidecar::finish_translate(7, Ok(vec![" Привет.".to_string(), " Как дела?".to_string()]));
    assert_eq!(r.id, Some(7));
    assert_eq!(r.translated.as_deref(), Some("Привет. Как дела?"));
    assert!(r.error.is_none());
}

#[test]
fn model_failure_is_a_translation_error() {
    let r = Sidecar::finish_translate(3, Err("boom".to_string()));
    let e = r.error.unwrap();
    assert_eq!(e.code, "TRANSLATION_ERROR");
    assert_eq!(e.message, "boom");
    assert!(e.recoverable);
    assert!(r.translated.is_none());
}

#[test]
fn unknown_language_pair_is_refused() {
    let sidecar = initialised();
    match sidecar.handle_translate(99, "hello", "en", "de") {
        TranslateStep::Respond(r) => {
            assert_eq!(r.id, Some(99));
            let e = r.error.unwrap();
            assert_eq!(e.code, "MODEL_NOT_FOUND");
            assert_eq!(e.message, "Translation model en\u{2192}de is not installed");
            assert!(!e.recoverable);
            assert_eq!(e.hint.as_deref(), Some("Reinstall KeyTweak with translator component"));
        }
        TranslateStep::RunModel(_) => panic!("no model covers en to de"),
    }
}

#[test]
fn empty_fields_are_invalid() {
    let sidecar = initialised();
    match sidecar.handle_translate(1, "", "en", "ru") {
        TranslateStep::Respond(r) => {
            let e = r.error.unwrap();
            assert_eq!(e.code, "INVALID_REQUEST");
            assert_eq!(e.message, "Missing required fields: q, source, target");
        }
        TranslateStep::RunModel(_) => panic!("empty text"),
    }
}

#[test]
fn missing_engine_cannot_translate() {
    let mut sidecar = Sidecar::new(None);
    sidecar.handle_request(Request::Init { protocol_version: "1.0".to_string() });
    match sidecar.handle_translate(1, "hi", "en", "ru") {
        TranslateStep::Respond(r) => {
            assert_eq!(r.error.unwrap().message, "Engine not loaded");
        }
        TranslateStep::RunModel(_) => panic!("no engine"),
    }
}

#[test]
fn too_long_text_is_refused() {
    let sidecar = initialised();
    let text = "a".repeat(10001);
    match sidecar.handle_translate(5, &text, "en", "ru") {
        TranslateStep::Respond(r) => {
            let e = r.error.unwrap();
            assert_eq!(e.code, "TEXT_TOO_LONG");
            assert_eq!(e.message, "Text length (10001) exceeds maximum (10000)");
            assert!(e.recoverable);
        }
        TranslateStep::RunModel(_) => panic!("too long"),
    }
}

#[test]
fn white_space_text_translates_to_nothing() {
    let sidecar = initialised();
    match sidecar.handle_translate(4, "   ", "en", "ru") {
        TranslateStep::Respond(r) => {
            assert_eq!(r.translated.as_deref(), Some(""));
            assert!(r.error.is_none());
        }
        TranslateStep::RunModel(_) => panic!("no sentences"),
    }
}

#[test]
fn status_reports_readiness_and_languages() {
    let mut sidecar = initialised();
    let out = sidecar.handle_request(Request::Status { id: 42 });
    assert_eq!(out.responses.len(), 1);
    assert_eq!(out.responses[0].id, Some(42));
    assert_eq!(out.responses[0].ready, Some(true));
    assert_eq!(out.responses[0].languages, Some(vec!["en".to_string(), "ru".to_string()]));
}

#[test]
fn graceful_shutdown() {
    let mut sidecar = initialised();
    let out = sidecar.handle_request(Request::Exit { reason: None });
    assert!(out.stop);
    assert!(!sidecar.running);
    assert_eq!(out.responses[0].response_type.as_deref(), Some("shutdown"));
    assert_eq!(out.responses[0].reason.as_deref(), Some("graceful"));
    let out = sidecar.handle_request(Request::Exit { reason: Some("bye".to_string()) });
    assert_eq!(out.responses[0].reason.as_deref(), Some("bye"));
}

#[test]
fn engine_languages_are_sorted_and_unique() {
    let e = Engine::from_models(vec![
        ("ru".to_string(), "en".to_string()),
        ("en".to_string(), "de".to_string()),
        ("en".to_string(), "ru".to_string()),
    ]);
    assert_eq!(e.languages(), &["de".to_string(), "en".to_string(), "ru".to_string()]);
    assert!(e.is_ready());
    assert!(e.has_model("en", "de"));
    assert!(!e.has_model("de", "en"));
    let only_de = Engine::from_models(vec![("en".to_string(), "de".to_string())]);
    assert!(!only_de.is_ready());
}

#[test]
fn engine_load_needs_the_directory() {
    match Engine::load("C:\\models", false, Ok(Vec::new())) {
        Err(e) => assert_eq!(e, "ARGOS_PACKAGES_DIR does not exist: C:\\models"),
        Ok(_) => panic!("missing directory"),
    }
    match Engine::load("C:\\models", true, Err("access denied".to_string())) {
        Err(e) => assert_eq!(e, "Failed to read packages dir: access denied"),
        Ok(_) => panic!("unreadable directory"),
    }
    let loaded = Engine::load(
        "C:\\models",
        true,
        Ok(vec![("en".to_string(), "ru".to_string()), ("en".to_string(), "ru".to_string())]),
    );
    let engine = loaded.expect("an engine");
    assert!(engine.has_model("en", "ru"));
    assert_eq!(engine.languages(), &["en".to_string(), "ru".to_string()]);
}

#[test]
fn translated_pieces_lose_one_leading_space() {
    let parts = vec![" a".to_string(), "b".to_string(), "  c".to_string()];
    assert_eq!(join_translations(&parts), "a b  c");
    assert_eq!(join_translations(&[]), "");
}
