use flaky_test::config::ConfigErrorKind;
use flaky_test::config::ErrSpan;
use flaky_test::config::Token;
use flaky_test::flaky_test;
use flaky_test::synth::asynchronous;
use flaky_test::synth::inner;
use flaky_test::synth::sync;
use flaky_test::synth::EntryKind;
use flaky_test::Expansion;
use flaky_test::TestDeclaration;

fn ident(s: &str) -> Token {
    Token::Ident(s.to_string())
}

fn intlit(s: &str) -> Token {
    Token::IntLit(s.to_string())
}

fn sync_decl() -> TestDeclaration {
    TestDeclaration {
        name: "fetches_eventually".to_string(),
        attrs: vec!["should_panic".to_string()],
        body: "assert!(server().poll());".to_string(),
        is_async: false,
    }
}

fn async_decl() -> TestDeclaration {
    TestDeclaration {
        name: "resolves_eventually".to_string(),
        attrs: Vec::new(),
        body: "assert_eq!(fut().await, 42);".to_string(),
        is_async: true,
    }
}

#[test]
fn default_expansion_wraps_three_sync_attempts() {
    match flaky_test(&Vec::new(), sync_decl(), false) {
        Expansion::Wrapped(g) => {
            assert_eq!(g.entry, EntryKind::SyncTest);
            assert_eq!(g.attempts, 3);
            assert_eq!(g.inner, sync_decl());
        }
        Expansion::Fallback { .. } => panic!("expected a wrapped declaration"),
    }
}

#[test]
fn markers_and_body_pass_through_unchanged() {
    let tokens = vec![ident("times"), Token::Equals, intlit("5")];
    match flaky_test(&tokens, sync_decl(), false) {
        Expansion::Wrapped(g) => {
            assert_eq!(g.attempts, 5);
            assert_eq!(g.inner.name, "fetches_eventually");
            assert_eq!(g.inner.attrs, vec!["should_panic".to_string()]);
            assert_eq!(g.inner.body, "assert!(server().poll());");
        }
        Expansion::Fallback { .. } => panic!("expected a wrapped declaration"),
    }
}

#[test]
fn async_expansion_registers_async_entry() {
    let tokens = vec![ident("tokio"), Token::Comma, ident("times"), Token::Equals, intlit("5")];
    match flaky_test(&tokens, async_decl(), true) {
        Expansion::Wrapped(g) => {
            assert_eq!(g.entry, EntryKind::AsyncTest(None));
            assert_eq!(g.attempts, 5);
            assert_eq!(g.inner, async_decl());
        }
        Expansion::Fallback { .. } => panic!("expected a wrapped declaration"),
    }
}

#[test]
fn async_entry_options_are_spliced_verbatim() {
    let opts = "flavor = \"multi_thread\", worker_threads = 2";
    let tokens = vec![ident("tokio"), Token::Group(opts.to_string())];
    match flaky_test(&tokens, async_decl(), true) {
        Expansion::Wrapped(g) => {
            assert_eq!(g.entry, EntryKind::AsyncTest(Some(opts.to_string())));
            assert_eq!(g.attempts, 3);
        }
        Expansion::Fallback { .. } => panic!("expected a wrapped declaration"),
    }
}

#[test]
fn async_marker_on_sync_body_produces_no_test() {
    let tokens = vec![ident("tokio")];
    match flaky_test(&tokens, sync_decl(), true) {
        Expansion::Wrapped(_) => panic!("expected a fallback"),
        Expansion::Fallback { original, diagnostic } => {
            assert_eq!(original, sync_decl());
            assert_eq!(diagnostic.kind, ConfigErrorKind::NotAsyncFn);
            assert_eq!(diagnostic.span, ErrSpan::Declaration);
            assert_eq!(diagnostic.message(), "must be `async fn`");
        }
    }
}

#[test]
fn config_error_preserves_declaration() {
    let tokens = vec![ident("times"), Token::Equals, intlit("0")];
    match flaky_test(&tokens, sync_decl(), false) {
        Expansion::Wrapped(_) => panic!("expected a fallback"),
        Expansion::Fallback { original, diagnostic } => {
            assert_eq!(original, sync_decl());
            assert_eq!(diagnostic.kind, ConfigErrorKind::NonPositiveTimes);
            assert_eq!(diagnostic.span, ErrSpan::AttrToken(2));
        }
    }
}

#[test]
fn expansion_is_deterministic() {
    let make_tokens = || vec![ident("tokio"), Token::Comma, ident("times"), Token::Equals, intlit("4")];
    let first = flaky_test(&make_tokens(), async_decl(), true);
    let second = flaky_test(&make_tokens(), async_decl(), true);
    assert_eq!(first, second);
    let bad_first = flaky_test(&vec![ident("nope")], sync_decl(), false);
    let bad_second = flaky_test(&vec![ident("nope")], sync_decl(), false);
    assert_eq!(bad_first, bad_second);
}

#[test]
fn sync_wrapper_embeds_declaration() {
    let g = sync(sync_decl(), 6);
    assert_eq!(g.entry, EntryKind::SyncTest);
    assert_eq!(g.attempts, 6);
    assert_eq!(g.inner, sync_decl());
}

#[test]
fn async_wrapper_requires_async_declaration() {
    let r = asynchronous(sync_decl(), 2, None);
    match r {
        Ok(_) => panic!("expected an error"),
        Err((original, e)) => {
            assert_eq!(original, sync_decl());
            assert_eq!(e.kind, ConfigErrorKind::NotAsyncFn);
        }
    }
    let g = asynchronous(async_decl(), 2, Some("x".to_string())).unwrap();
    assert_eq!(g.entry, EntryKind::AsyncTest(Some("x".to_string())));
    assert_eq!(g.inner, async_decl());
}

#[test]
fn inner_reports_the_first_error() {
    let tokens = vec![ident("tokio"), Token::Comma, ident("times"), Token::Equals, intlit("0")];
    match inner(&tokens, async_decl(), true) {
        Ok(_) => panic!("expected an error"),
        Err((original, e)) => {
            assert_eq!(original, async_decl());
            assert_eq!(e.kind, ConfigErrorKind::NonPositiveTimes);
            assert_eq!(e.span, ErrSpan::AttrToken(4));
        }
    }
}
