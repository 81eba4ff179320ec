use napp::plugin::win::{blocks_input, register_page_configs, InputEvent, InputKey, WinError, WinOptions, WinState};

fn opts(t: &str) -> WinOptions {
    WinOptions::new(t.to_string(), format!("/{}", t))
}

#[test]
fn page_configs_all_registered() {
    let mut s = WinState::new();
    assert_eq!(register_page_configs(&mut s, vec![opts("main"), opts("about")]), Ok(()));
    assert_eq!(s.register_win_types, vec![opts("main"), opts("about")]);
    assert_eq!(register_page_configs(&mut s, vec![]), Ok(()));
    assert_eq!(s.register_win_types.len(), 2);
}

#[test]
fn page_configs_stop_at_duplicate() {
    let mut s = WinState::new();
    s.register(opts("about")).unwrap();
    let r = register_page_configs(&mut s, vec![opts("main"), opts("main"), opts("extra")]);
    assert_eq!(r, Err(WinError::AlreadyExist("Win type main".to_string())));
    assert_eq!(s.register_win_types, vec![opts("about"), opts("main")]);
    let r = register_page_configs(&mut s, vec![opts("about")]);
    assert_eq!(r, Err(WinError::AlreadyExist("Win type about".to_string())));
}

#[test]
fn only_alt_and_u_are_blocked() {
    assert!(blocks_input(InputEvent::KeyPress(InputKey::Alt)));
    assert!(blocks_input(InputEvent::KeyPress(InputKey::KeyU)));
    assert!(!blocks_input(InputEvent::KeyPress(InputKey::Other)));
    assert!(!blocks_input(InputEvent::MouseMove));
    assert!(!blocks_input(InputEvent::Other));
}
