use iced_window_action::decimal::{push_decimal, push_signed_decimal};
use iced_window_action::window::{Action, Callback, Mode};

fn fetch_is_hidden() -> Action<bool> {
    Action::FetchMode(Callback::from_fn(|m: Mode| m == Mode::Hidden))
}

#[test]
fn resize_text_shows_both_fields() {
    let a: Action<()> = Action::Resize { width: 800, height: 600 };
    assert_eq!(a.debug_text(), "Action::Resize { width: 800, height: 600 }");
}

#[test]
fn resize_text_extreme_sizes() {
    let a: Action<()> = Action::Resize { width: 0, height: u32::MAX };
    assert_eq!(a.debug_text(), "Action::Resize { width: 0, height: 4294967295 }");
}

#[test]
fn move_text_negative_coordinates() {
    let a: Action<()> = Action::Move { x: -15, y: 240 };
    assert_eq!(a.debug_text(), "Action::Move { x: -15, y: 240 }");
}

#[test]
fn move_text_extreme_coordinates() {
    let a: Action<()> = Action::Move { x: i32::MIN, y: i32::MAX };
    assert_eq!(a.debug_text(), "Action::Move { x: -2147483648, y: 2147483647 }");
}

#[test]
fn set_mode_text_each_mode() {
    let w: Action<()> = Action::SetMode(Mode::Windowed);
    let f: Action<()> = Action::SetMode(Mode::Fullscreen);
    let h: Action<()> = Action::SetMode(Mode::Hidden);
    assert_eq!(w.debug_text(), "Action::SetMode(Windowed)");
    assert_eq!(f.debug_text(), "Action::SetMode(Fullscreen)");
    assert_eq!(h.debug_text(), "Action::SetMode(Hidden)");
}

#[test]
fn set_mode_text_matches_mode_debug() {
    let a: Action<()> = Action::SetMode(Mode::Fullscreen);
    assert_eq!(a.debug_text(), format!("Action::SetMode({:?})", Mode::Fullscreen));
}

#[test]
fn fetch_mode_text_hides_callback() {
    assert_eq!(fetch_is_hidden().debug_text(), "Action::FetchMode");
}

#[test]
fn ime_window_text() {
    let a: Action<()> = Action::MoveIMECandidateWindow { x: 12, y: -7 };
    assert_eq!(a.debug_text(), "Action::MoveIMECandidateWindow { x: 12, y: -7 }");
}

#[test]
fn ime_allow_text() {
    let yes: Action<()> = Action::SetIMEAllow(true);
    let no: Action<()> = Action::SetIMEAllow(false);
    assert_eq!(yes.debug_text(), "Action::SetIMEAllow { allow : true }");
    assert_eq!(no.debug_text(), "Action::SetIMEAllow { allow : false }");
}

#[test]
fn text_is_stable() {
    let a: Action<()> = Action::Move { x: 3, y: 4 };
    assert_eq!(a.debug_text(), a.debug_text());
}

#[test]
fn map_keeps_plain_commands() {
    let cases: Vec<Action<u8>> = vec![
        Action::Resize { width: 1024, height: 768 },
        Action::Move { x: -1, y: 2 },
        Action::SetMode(Mode::Hidden),
        Action::MoveIMECandidateWindow { x: 5, y: 6 },
        Action::SetIMEAllow(true),
    ];
    for a in cases {
        let before = a.debug_text();
        let after = a.map(|x: u8| x as u32 + 1).debug_text();
        assert_eq!(before, after);
    }
}

#[test]
fn map_keeps_resize_fields() {
    let a: Action<u8> = Action::Resize { width: 10, height: 20 };
    match a.map(|x: u8| x as u64) {
        Action::Resize { width, height } => {
            assert_eq!(width, 10);
            assert_eq!(height, 20);
        }
        _ => panic!("variant changed"),
    }
}

#[test]
fn map_identity_keeps_command() {
    let a: Action<u8> = Action::SetIMEAllow(false);
    match a.map(|x: u8| x) {
        Action::SetIMEAllow(allow) => assert!(!allow),
        _ => panic!("variant changed"),
    }
}

#[test]
fn map_identity_keeps_callback_results() {
    for m in [Mode::Windowed, Mode::Fullscreen, Mode::Hidden] {
        match fetch_is_hidden().map(|b: bool| b) {
            Action::FetchMode(c) => assert_eq!(c.run(m), m == Mode::Hidden),
            _ => panic!("variant changed"),
        }
    }
}

#[test]
fn map_composes_callback() {
    let mapped = fetch_is_hidden().map(|b: bool| if b { 7u8 } else { 1u8 });
    match mapped {
        Action::FetchMode(c) => assert_eq!(c.run(Mode::Hidden), 7),
        _ => panic!("variant changed"),
    }
    match fetch_is_hidden().map(|b: bool| if b { 7u8 } else { 1u8 }) {
        Action::FetchMode(c) => assert_eq!(c.run(Mode::Windowed), 1),
        _ => panic!("variant changed"),
    }
}

#[test]
fn map_twice_composes_in_order() {
    let a: Action<u32> = Action::FetchMode(Callback::from_fn(|m: Mode| match m {
        Mode::Windowed => 1u32,
        Mode::Fullscreen => 2u32,
        Mode::Hidden => 3u32,
    }));
    let b = a.map(|n: u32| n * 10).map(|n: u32| n + 1);
    match b {
        Action::FetchMode(c) => assert_eq!(c.run(Mode::Fullscreen), 21),
        _ => panic!("variant changed"),
    }
}

#[test]
fn callback_map_and_run() {
    let c = Callback::from_fn(|m: Mode| m == Mode::Windowed).map(|b: bool| !b);
    assert!(!c.run(Mode::Windowed));
}

#[test]
fn decimal_digits() {
    let mut s = String::from("n=");
    push_decimal(&mut s, 0);
    s.push(',');
    push_decimal(&mut s, 9);
    s.push(',');
    push_decimal(&mut s, 10);
    s.push(',');
    push_decimal(&mut s, u64::MAX);
    assert_eq!(s, "n=0,9,10,18446744073709551615");
}

#[test]
fn signed_decimal_digits() {
    let mut s = String::new();
    push_signed_decimal(&mut s, -1);
    s.push(' ');
    push_signed_decimal(&mut s, 42);
    s.push(' ');
    push_signed_decimal(&mut s, i64::MIN);
    assert_eq!(s, "-1 42 -9223372036854775808");
}

#[test]
fn distinct_fields_give_distinct_text() {
    let a: Action<()> = Action::Move { x: 1, y: 23 };
    let b: Action<()> = Action::Move { x: 12, y: 3 };
    let c: Action<()> = Action::MoveIMECandidateWindow { x: 1, y: 23 };
    assert_ne!(a.debug_text(), b.debug_text());
    assert_ne!(a.debug_text(), c.debug_text());
    let r: Action<()> = Action::Resize { width: 1, height: 23 };
    let s: Action<()> = Action::Resize { width: 12, height: 3 };
    assert_ne!(r.debug_text(), s.debug_text());
}
