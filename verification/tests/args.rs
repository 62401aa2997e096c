use mtk_flash::args::{Args, ArgsError};

fn toks(parts: &[&str]) -> Vec<String> {
    parts.iter().map(|s| s.to_string()).collect()
}

#[test]
fn parses_all_args() {
    let args = Args::parse_from(&toks(&[
        "test",
        "--da",
        "boot/lk.img",
        "--fip",
        "boot/fip.img",
        "--img",
        "system.img",
        "--dev",
        "/dev/ttyUSB0",
    ]))
    .unwrap();
    assert_eq!(args.da, "boot/lk.img");
    assert_eq!(args.fip.unwrap(), "boot/fip.img");
    assert_eq!(args.img.unwrap(), "system.img");
    assert_eq!(args.dev, "/dev/ttyUSB0");
}

#[test]
fn parses_no_erase_boot1_flag() {
    let args = Args::parse_from(&toks(&[
        "test",
        "--da",
        "boot/lk.img",
        "--dev",
        "/dev/ttyUSB0",
        "--preserve-boot1",
    ]))
    .unwrap();
    assert!(args.preserve_boot1);

    let args = Args::parse_from(&toks(&["test", "--da", "boot/lk.img", "--dev", "/dev/ttyUSB0"]))
        .unwrap();
    assert!(!args.preserve_boot1);
}

#[test]
fn args_fails_without_required_args() {
    let r = Args::parse_from(&toks(&["test"]));
    assert!(matches!(r, Err(ArgsError::MissingRequired)));
}

#[test]
fn args_fails_with_missing_da() {
    let r = Args::parse_from(&toks(&["test", "--dev", "/dev/ttyUSB0"]));
    assert!(matches!(r, Err(ArgsError::MissingRequired)));
}

#[test]
fn args_fails_with_missing_dev() {
    let r = Args::parse_from(&toks(&["test", "--da", "boot/lk.img"]));
    assert!(matches!(r, Err(ArgsError::MissingRequired)));
}

#[test]
fn fails_with_flag_missing_its_value() {
    let r = Args::parse_from(&toks(&["test", "--dev", "/dev/ttyUSB0", "--da"]));
    assert!(matches!(r, Err(ArgsError::MissingValue)));
}

#[test]
fn fails_on_unknown_argument() {
    let r = Args::parse_from(&toks(&["test", "--da", "a", "--dev", "b", "--bogus"]));
    assert!(matches!(r, Err(ArgsError::UnknownArgument)));
}

#[test]
fn optional_paths_default_to_none() {
    let args = Args::parse_from(&toks(&["test", "--da", "a", "--dev", "b"])).unwrap();
    assert!(args.fip.is_none());
    assert!(args.img.is_none());
    assert!(args.gpio.is_none());
}

#[test]
fn gpio_flag_is_parsed() {
    let args = Args::parse_from(&toks(&[
        "test",
        "--da",
        "a",
        "--dev",
        "b",
        "--gpio",
        "/dev/gpiochip0",
    ]))
    .unwrap();
    assert_eq!(args.gpio.unwrap(), "/dev/gpiochip0");
}
