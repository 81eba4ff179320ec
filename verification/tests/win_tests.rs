use napp::win::{
    command_target, init_script, numbered_label, window_steps, OpenAction, WinError, WinOptions, WinState, WindowStep,
};

fn opts(t: &str) -> WinOptions {
    WinOptions::new(t.to_string(), format!("/{}", t))
}

fn labels(v: &[String]) -> Vec<&str> {
    v.iter().map(|s| s.as_str()).collect()
}

#[test]
fn new_options_set_nothing_else() {
    let o = WinOptions::new("main".to_string(), "index.html".to_string());
    assert_eq!(o.win_type, "main");
    assert_eq!(o.url, "index.html");
    assert_eq!(o.overopen, None);
    assert_eq!(o.position, None);
    assert_eq!(o.size, None);
    assert_eq!(o.min_size, None);
    assert_eq!(o.max_size, None);
    assert_eq!(o.resizable, None);
    assert_eq!(o.title, None);
    assert_eq!(o.fullscreen, None);
    assert_eq!(o.focus, None);
    assert_eq!(o.center, None);
}

#[test]
fn new_state_is_empty() {
    let s = WinState::new();
    assert!(s.register_win_types.is_empty());
    assert!(s.open_wins.is_empty());
    assert!(s.hide_wins.is_empty());
    assert!(s.get_options_by_type("main").is_none());
}

#[test]
fn register_then_lookup() {
    let mut s = WinState::new();
    assert_eq!(s.register(opts("main")), Ok(()));
    assert_eq!(s.register(opts("about")), Ok(()));
    assert_eq!(s.get_options_by_type("main"), Some(&opts("main")));
    assert_eq!(s.get_options_by_type("about").unwrap().url, "/about");
    assert!(s.get_options_by_type("other").is_none());
}

#[test]
fn register_twice_is_refused() {
    let mut s = WinState::new();
    s.register(opts("main")).unwrap();
    let mut again = opts("main");
    again.url = "elsewhere".to_string();
    assert_eq!(s.register(again), Err(WinError::AlreadyExist("Win type main".to_string())));
    assert_eq!(s.register_win_types.len(), 1);
    assert_eq!(s.get_options_by_type("main").unwrap().url, "/main");
}

#[test]
fn open_hide_close_move_labels() {
    let mut s = WinState::new();
    assert_eq!(s.open("a"), Ok(()));
    assert_eq!(s.open("b"), Ok(()));
    assert_eq!(labels(&s.open_wins), vec!["a", "b"]);
    assert_eq!(s.hide_window("a"), Ok(()));
    assert_eq!(labels(&s.open_wins), vec!["b"]);
    assert_eq!(labels(&s.hide_wins), vec!["a"]);
    assert_eq!(s.open("a"), Ok(()));
    assert_eq!(labels(&s.open_wins), vec!["b", "a"]);
    assert!(s.hide_wins.is_empty());
    assert_eq!(s.close("b"), Ok(()));
    assert_eq!(labels(&s.open_wins), vec!["a"]);
}

#[test]
fn open_twice_is_refused() {
    let mut s = WinState::new();
    s.open("a").unwrap();
    assert_eq!(s.open("a"), Err(WinError::AlreadyOpen("a".to_string())));
    assert_eq!(labels(&s.open_wins), vec!["a"]);
}

#[test]
fn hide_twice_is_refused() {
    let mut s = WinState::new();
    s.hide_window("a").unwrap();
    assert_eq!(s.hide_window("a"), Err(WinError::AlreadyHide("a".to_string())));
    assert_eq!(labels(&s.hide_wins), vec!["a"]);
    assert!(s.open_wins.is_empty());
}

#[test]
fn close_twice_is_close_once() {
    let mut s = WinState::new();
    s.open("a").unwrap();
    s.hide_window("b").unwrap();
    s.close("a").unwrap();
    let open_once = s.open_wins.clone();
    let hidden_once = s.hide_wins.clone();
    assert_eq!(s.close("a"), Ok(()));
    assert_eq!(s.open_wins, open_once);
    assert_eq!(s.hide_wins, hidden_once);
    assert_eq!(s.close("missing"), Ok(()));
    assert_eq!(labels(&s.hide_wins), vec!["b"]);
}

#[test]
fn open_then_close_restores_lists() {
    let mut s = WinState::new();
    s.open("x").unwrap();
    s.hide_window("y").unwrap();
    let before_open = s.open_wins.clone();
    let before_hidden = s.hide_wins.clone();
    s.open("z").unwrap();
    s.close("z").unwrap();
    assert_eq!(s.open_wins, before_open);
    assert_eq!(s.hide_wins, before_hidden);
    s.hide_window("w").unwrap();
    s.close("w").unwrap();
    assert_eq!(s.open_wins, before_open);
    assert_eq!(s.hide_wins, before_hidden);
}

#[test]
fn open_action_follows_options() {
    let mut s = WinState::new();
    let mut many = opts("note");
    many.overopen = Some(true);
    s.register(many).unwrap();
    let mut once = opts("main");
    once.overopen = Some(false);
    s.register(once).unwrap();
    s.register(opts("about")).unwrap();
    assert_eq!(s.open_action("note", true), Ok(OpenAction::NewNumbered));
    assert_eq!(s.open_action("note", false), Ok(OpenAction::NewNumbered));
    assert_eq!(s.open_action("main", true), Ok(OpenAction::Notify));
    assert_eq!(s.open_action("main", false), Ok(OpenAction::Create));
    assert_eq!(s.open_action("about", false), Ok(OpenAction::Create));
    assert_eq!(s.open_action("ghost", false), Err(WinError::NotRegister("ghost".to_string())));
}

#[test]
fn hide_precheck_looks_at_calling_window() {
    let mut s = WinState::new();
    s.hide_window("main").unwrap();
    assert_eq!(
        s.hide_precheck("", "main"),
        Err(WinError::HideWindowFail("main".to_string(), "already hide".to_string()))
    );
    assert_eq!(
        s.hide_precheck("other", "main"),
        Err(WinError::HideWindowFail("other".to_string(), "already hide".to_string()))
    );
    assert_eq!(s.hide_precheck("main", "other"), Ok(()));
}

#[test]
fn command_target_defaults_to_caller() {
    assert_eq!(command_target("", "main"), "main");
    assert_eq!(command_target("about", "main"), "about");
}

#[test]
fn numbered_label_appends_decimal() {
    assert_eq!(numbered_label("note", 0), "note_0");
    assert_eq!(numbered_label("note", 7), "note_7");
    assert_eq!(numbered_label("note", 10), "note_10");
    assert_eq!(numbered_label("", 1234), "_1234");
    assert_eq!(numbered_label("n", usize::MAX), format!("n_{}", usize::MAX));
}

#[test]
fn init_script_embeds_arguments() {
    let expected = format!(
        r#"
                if (window.location.origin === 'http://localhost:1420' || window.location.origin === '') {{
                    console.log("init");

                    window.__MY_CUSTOM_PROPERTY__ = '{}';
                }}
            "#,
        "{\"send\":\"main\",\"args\":{}}"
    );
    assert_eq!(init_script("{\"send\":\"main\",\"args\":{}}"), expected);
}

#[test]
fn window_steps_in_order() {
    let mut o = opts("main");
    o.position = Some((1.5f64.to_bits(), 2.0f64.to_bits()));
    o.size = Some((800.0f64.to_bits(), 600.0f64.to_bits()));
    o.min_size = Some((10.0f64.to_bits(), 10.0f64.to_bits()));
    o.max_size = Some((1000.0f64.to_bits(), 900.0f64.to_bits()));
    o.title = Some("Main".to_string());
    o.focus = Some(true);
    o.fullscreen = Some(false);
    o.resizable = Some(true);
    o.center = Some(true);
    assert_eq!(
        window_steps(&o),
        vec![
            WindowStep::Position(1.5f64.to_bits(), 2.0f64.to_bits()),
            WindowStep::InnerSize(800.0f64.to_bits(), 600.0f64.to_bits()),
            WindowStep::MaxInnerSize(1000.0f64.to_bits(), 900.0f64.to_bits()),
            WindowStep::MaxInnerSize(1000.0f64.to_bits(), 900.0f64.to_bits()),
            WindowStep::Title("Main".to_string()),
            WindowStep::Focused(true),
            WindowStep::Fullscreen(false),
            WindowStep::Resizable(true),
            WindowStep::Center,
        ]
    );
    let mut p = opts("plain");
    p.center = Some(false);
    p.min_size = Some((1, 2));
    assert_eq!(window_steps(&p), vec![]);
}

#[test]
fn error_messages() {
    assert_eq!(WinError::MissOptions("url".to_string()).message(), "Options `url` is not find");
    assert_eq!(WinError::AlreadyExist("Win type main".to_string()).message(), "Win type main Already exist");
    assert_eq!(WinError::AlreadyOpen("a".to_string()).message(), "a Already open");
    assert_eq!(WinError::AlreadyHide("a".to_string()).message(), "a Already hide");
    assert_eq!(WinError::NotRegister("a".to_string()).message(), "a Not register");
    assert_eq!(WinError::OpenWindowFail("a".to_string(), "x".to_string()).message(), "a open fail: x");
    assert_eq!(WinError::CloseWindowFail("a".to_string(), "x".to_string()).message(), "a close faill: x");
    assert_eq!(WinError::HideWindowFail("a".to_string(), "x".to_string()).message(), "a hide faill: x");
}
