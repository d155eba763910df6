use jrinx_sched::bootargs::BootArgs;
use jrinx_sched::color::{with_color, ColorCode};

#[test]
fn color_codes() {
    assert_eq!(ColorCode::RED.code(), 31);
    assert_eq!(ColorCode::GREEN.code(), 32);
    assert_eq!(ColorCode::YELLOW.code(), 33);
    assert_eq!(ColorCode::BLUE.code(), 34);
    assert_eq!(ColorCode::MAGENTA.code(), 35);
    assert_eq!(ColorCode::CYAN.code(), 36);
    assert_eq!(ColorCode::WHITE.code(), 37);
}

#[test]
fn with_color_wraps_text() {
    let out = with_color(ColorCode::RED, ColorCode::WHITE, b"ok");
    assert_eq!(out, b"\x1b[31mok\x1b[37m".to_vec());
    let empty = with_color(ColorCode::CYAN, ColorCode::GREEN, b"");
    assert_eq!(empty, b"\x1b[36m\x1b[32m".to_vec());
}

#[test]
fn bootargs_are_set_once() {
    let mut args = BootArgs::new();
    assert!(args.get().is_none());
    args.set("-t help");
    assert_eq!(args.get().map(|s| s.as_str()), Some("-t help"));
    args.set("-h");
    assert_eq!(args.get().map(|s| s.as_str()), Some("-t help"));
}
