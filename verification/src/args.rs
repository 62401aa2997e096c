//! Command-line argument parsing: the flags the flashing tool accepts, from
//! a plain token list. `--da` and `--dev` are required; `--fip`, `--img`
//! and `--gpio` are optional values; `--preserve-boot1` is a switch that
//! keeps the secondary boot partition from being erased. The first token is
//! the program name. A repeated flag keeps its last value.

use vstd::prelude::*;

verus! {

/// The parsed invocation.
#[derive(Clone, Debug)]
pub struct Args {
    /// Download Agent image path.
    pub da: String,
    /// Optional Firmware Image Package image path.
    pub fip: Option<String>,
    /// Optional system image path.
    pub img: Option<String>,
    /// Path to the serial device.
    pub dev: String,
    /// Optional gpiochip path for power, reset and download-mode lines.
    pub gpio: Option<String>,
    /// Keep the secondary boot partition: skip its erase.
    pub preserve_boot1: bool,
}

/// Why a token list was rejected.
#[derive(Clone, Copy, Debug, PartialEq, Eq, Structural)]
pub enum ArgsError {
    /// A token is none of the known flags.
    UnknownArgument,
    /// A flag that takes a value stands last, with no value after it.
    MissingValue,
    /// `--da` or `--dev` was not provided.
    MissingRequired,
}

/// The parse state: which values have been seen so far.
pub ghost struct SpecArgs {
    pub da: Option<Seq<char>>,
    pub fip: Option<Seq<char>>,
    pub img: Option<Seq<char>>,
    pub dev: Option<Seq<char>>,
    pub gpio: Option<Seq<char>>,
    pub preserve_boot1: bool,
}

/// No flag seen yet.
pub open spec fn spec_args_init() -> SpecArgs {
    SpecArgs { da: None, fip: None, img: None, dev: None, gpio: None, preserve_boot1: false }
}

/// One pass over the tokens from position `i`: each known value flag
/// consumes the following token, the switch consumes none, anything else
/// is unknown.
pub open spec fn spec_parse_tokens(toks: Seq<Seq<char>>, i: int, acc: SpecArgs) -> Result<
    SpecArgs,
    ArgsError,
>
    decreases toks.len() - i,
{
    if i >= toks.len() {
        Ok(acc)
    } else if toks[i] == "--da"@ {
        if i + 1 >= toks.len() {
            Err(ArgsError::MissingValue)
        } else {
            spec_parse_tokens(toks, i + 2, SpecArgs { da: Some(toks[i + 1]), ..acc })
        }
    } else if toks[i] == "--fip"@ {
        if i + 1 >= toks.len() {
            Err(ArgsError::MissingValue)
        } else {
            spec_parse_tokens(toks, i + 2, SpecArgs { fip: Some(toks[i + 1]), ..acc })
        }
    } else if toks[i] == "--img"@ {
        if i + 1 >= toks.len() {
            Err(ArgsError::MissingValue)
        } else {
            spec_parse_tokens(toks, i + 2, SpecArgs { img: Some(toks[i + 1]), ..acc })
        }
    } else if toks[i] == "--dev"@ {
        if i + 1 >= toks.len() {
            Err(ArgsError::MissingValue)
        } else {
            spec_parse_tokens(toks, i + 2, SpecArgs { dev: Some(toks[i + 1]), ..acc })
        }
    } else if toks[i] == "--gpio"@ {
        if i + 1 >= toks.len() {
            Err(ArgsError::MissingValue)
        } else {
            spec_parse_tokens(toks, i + 2, SpecArgs { gpio: Some(toks[i + 1]), ..acc })
        }
    } else if toks[i] == "--preserve-boot1"@ {
        spec_parse_tokens(toks, i + 1, SpecArgs { preserve_boot1: true, ..acc })
    } else {
        Err(ArgsError::UnknownArgument)
    }
}

/// What parsing a full token list yields: the pass over the tokens after
/// the program name, then the check that both required flags were seen.
pub open spec fn spec_parse_from(toks: Seq<Seq<char>>) -> Result<SpecArgs, ArgsError> {
    match spec_parse_tokens(toks, 1, spec_args_init()) {
        Ok(a) => if a.da is Some && a.dev is Some {
            Ok(a)
        } else {
            Err(ArgsError::MissingRequired)
        },
        Err(e) => Err(e),
    }
}

/// The token views of an argument vector.
pub open spec fn spec_token_views(args: Seq<String>) -> Seq<Seq<char>> {
    args.map_values(|s: String| s@)
}

/// The parsed result carries exactly the values of the parse state.
pub open spec fn spec_args_match(a: Args, m: SpecArgs) -> bool {
    &&& m.da == Some(a.da@)
    &&& (match (a.fip, m.fip) {
        (Some(s), Some(v)) => s@ == v,
        (None, None) => true,
        _ => false,
    })
    &&& (match (a.img, m.img) {
        (Some(s), Some(v)) => s@ == v,
        (None, None) => true,
        _ => false,
    })
    &&& m.dev == Some(a.dev@)
    &&& (match (a.gpio, m.gpio) {
        (Some(s), Some(v)) => s@ == v,
        (None, None) => true,
        _ => false,
    })
    &&& a.preserve_boot1 == m.preserve_boot1
}

/// The parse state the current partial values denote.
pub open spec fn spec_model_of(
    da: Option<String>,
    fip: Option<String>,
    img: Option<String>,
    dev: Option<String>,
    gpio: Option<String>,
    preserve_boot1: bool,
) -> SpecArgs {
    SpecArgs {
        da: match da {
            Some(s) => Some(s@),
            None => None,
        },
        fip: match fip {
            Some(s) => Some(s@),
            None => None,
        },
        img: match img {
            Some(s) => Some(s@),
            None => None,
        },
        dev: match dev {
            Some(s) => Some(s@),
            None => None,
        },
        gpio: match gpio {
            Some(s) => Some(s@),
            None => None,
        },
        preserve_boot1,
    }
}

fn tok_eq(a: &String, b: &String) -> (r: bool)
    ensures
        r == (a@ == b@),
{
    a.eq(b)
}

impl Args {
    /// Parse an invocation from its token list; the first token is the
    /// program name and is skipped.
    pub fn parse_from(args: &Vec<String>) -> (r: Result<Args, ArgsError>)
        ensures
            ({
                let m = spec_parse_from(spec_token_views(args@));
                match r {
                    Ok(a) => m matches Ok(sm) && spec_args_match(a, sm),
                    Err(e) => m == Err::<SpecArgs, ArgsError>(e),
                }
            }),
    {
        let f_da: String = "--da".to_owned();
        let f_fip: String = "--fip".to_owned();
        let f_img: String = "--img".to_owned();
        let f_dev: String = "--dev".to_owned();
        let f_gpio: String = "--gpio".to_owned();
        let f_preserve: String = "--preserve-boot1".to_owned();
        let ghost toks = spec_token_views(args@);
        let mut da: Option<String> = None;
        let mut fip: Option<String> = None;
        let mut img: Option<String> = None;
        let mut dev: Option<String> = None;
        let mut gpio: Option<String> = None;
        let mut preserve_boot1: bool = false;
        let mut i: usize = 1;
        while i < args.len()
            invariant
                1 <= i,
                toks == spec_token_views(args@),
                toks.len() == args@.len(),
                f_da@ == "--da"@,
                f_fip@ == "--fip"@,
                f_img@ == "--img"@,
                f_dev@ == "--dev"@,
                f_gpio@ == "--gpio"@,
                f_preserve@ == "--preserve-boot1"@,
                spec_parse_tokens(toks, 1, spec_args_init()) == spec_parse_tokens(
                    toks,
                    i as int,
                    spec_model_of(da, fip, img, dev, gpio, preserve_boot1),
                ),
            decreases args@.len() - i,
        {
            proof {
                assert(toks[i as int] == args@[i as int]@);
            }
            if tok_eq(&args[i], &f_da) {
                if i + 1 >= args.len() {
                    return Err(ArgsError::MissingValue);
                }
                proof {
                    assert(toks[i as int + 1] == args@[i as int + 1]@);
                }
                da = Some(args[i + 1].clone());
                i += 2;
            } else if tok_eq(&args[i], &f_fip) {
                if i + 1 >= args.len() {
                    return Err(ArgsError::MissingValue);
                }
                proof {
                    assert(toks[i as int + 1] == args@[i as int + 1]@);
                }
                fip = Some(args[i + 1].clone());
                i += 2;
            } else if tok_eq(&args[i], &f_img) {
                if i + 1 >= args.len() {
                    return Err(ArgsError::MissingValue);
                }
                proof {
                    assert(toks[i as int + 1] == args@[i as int + 1]@);
                }
                img = Some(args[i + 1].clone());
                i += 2;
            } else if tok_eq(&args[i], &f_dev) {
                if i + 1 >= args.len() {
                    return Err(ArgsError::MissingValue);
                }
                proof {
                    assert(toks[i as int + 1] == args@[i as int + 1]@);
                }
                dev = Some(args[i + 1].clone());
                i += 2;
            } else if tok_eq(&args[i], &f_gpio) {
                if i + 1 >= args.len() {
                    return Err(ArgsError::MissingValue);
                }
                proof {
                    assert(toks[i as int + 1] == args@[i as int + 1]@);
                }
                gpio = Some(args[i + 1].clone());
                i += 2;
            } else if tok_eq(&args[i], &f_preserve) {
                preserve_boot1 = true;
                i += 1;
            } else {
                return Err(ArgsError::UnknownArgument);
            }
        }
        let da = match da {
            Some(s) => s,
            None => {
                return Err(ArgsError::MissingRequired);
            },
        };
        let dev = match dev {
            Some(s) => s,
            None => {
                return Err(ArgsError::MissingRequired);
            },
        };
        Ok(Args { da, fip, img, dev, gpio, preserve_boot1 })
    }
}

} // verus!
