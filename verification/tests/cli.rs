//! The same required-argument checks, driven as the command line of the
//! flashing tool would present them.

use mtk_flash::args::{Args, ArgsError};

fn toks(parts: &[&str]) -> Vec<String> {
    parts.iter().map(|s| s.to_string()).collect()
}

#[test]
fn cli_fails_without_required_args() {
    let r = Args::parse_from(&toks(&["debian-genio-flash"]));
    assert!(matches!(r, Err(ArgsError::MissingRequired)));
}

#[test]
fn cli_fails_with_missing_da() {
    let r = Args::parse_from(&toks(&["debian-genio-flash", "--dev", "/dev/ttyUSB0"]));
    assert!(matches!(r, Err(ArgsError::MissingRequired)));
}

#[test]
fn cli_fails_with_missing_dev() {
    let r = Args::parse_from(&toks(&["debian-genio-flash", "--da", "boot/lk.img"]));
    assert!(matches!(r, Err(ArgsError::MissingRequired)));
}
