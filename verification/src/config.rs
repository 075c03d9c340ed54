//! The run configuration and its construction from an argument list.

use vstd::prelude::*;

verus! {

/// The immutable configuration of one run: whether to emit a header,
/// whether to render cells as escaped JSON text, the ordered columns as
/// `(label, path)` pairs, and the ordered flatten paths.
#[derive(Debug)]
pub struct Config {
    pub header: bool,
    pub string_escape: bool,
    pub columns: Vec<(String, String)>,
    pub flat_path: Vec<String>,
}

/// The mathematical shape of a configuration: every string as its
/// character sequence.
#[verifier::ext_equal]
pub struct ConfigModel {
    pub header: bool,
    pub escape: bool,
    pub columns: Seq<(Seq<char>, Seq<char>)>,
    pub flats: Seq<Seq<char>>,
}

pub open spec fn col_views(cs: Seq<(String, String)>) -> Seq<(Seq<char>, Seq<char>)> {
    cs.map_values(|c: (String, String)| (c.0@, c.1@))
}

impl View for Config {
    type V = ConfigModel;

    open spec fn view(&self) -> ConfigModel {
        ConfigModel {
            header: self.header,
            escape: self.string_escape,
            columns: col_views(self.columns@),
            flats: self.flat_path@.map_values(|s: String| s@),
        }
    }
}

/// A fault in the argument list: an option's value argument is missing.
#[derive(Debug, PartialEq, Eq)]
pub enum ConfigError {
    MissingFlatPath,
    MissingColumnKey,
    MissingColumnPath,
}

impl ConfigError {
    /// The report for the operator, one fixed line per fault.
    pub fn message(&self) -> (m: &'static str)
        ensures
            m@ == match *self {
                ConfigError::MissingFlatPath => "Not found flat path"@,
                ConfigError::MissingColumnKey => "Not found key argument"@,
                ConfigError::MissingColumnPath => "Not found path argument"@,
            },
    {
        match self {
            ConfigError::MissingFlatPath => "Not found flat path",
            ConfigError::MissingColumnKey => "Not found key argument",
            ConfigError::MissingColumnPath => "Not found path argument",
        }
    }
}

/// The character of one decimal digit.
pub open spec fn digit_char(d: nat) -> char {
    if d == 0 {
        '0'
    } else if d == 1 {
        '1'
    } else if d == 2 {
        '2'
    } else if d == 3 {
        '3'
    } else if d == 4 {
        '4'
    } else if d == 5 {
        '5'
    } else if d == 6 {
        '6'
    } else if d == 7 {
        '7'
    } else if d == 8 {
        '8'
    } else {
        '9'
    }
}

/// The decimal text of a natural number, most significant digit first.
pub open spec fn dec_of(n: nat) -> Seq<char>
    decreases n,
{
    if n < 10 {
        seq![digit_char(n)]
    } else {
        dec_of(n / 10).push(digit_char(n % 10))
    }
}

fn digit_str(d: usize) -> (s: &'static str)
    requires
        d < 10,
    ensures
        s@ == seq![digit_char(d as nat)],
{
    proof {
        reveal_strlit("0");
        reveal_strlit("1");
        reveal_strlit("2");
        reveal_strlit("3");
        reveal_strlit("4");
        reveal_strlit("5");
        reveal_strlit("6");
        reveal_strlit("7");
        reveal_strlit("8");
        reveal_strlit("9");
    }
    let s = if d == 0 {
        "0"
    } else if d == 1 {
        "1"
    } else if d == 2 {
        "2"
    } else if d == 3 {
        "3"
    } else if d == 4 {
        "4"
    } else if d == 5 {
        "5"
    } else if d == 6 {
        "6"
    } else if d == 7 {
        "7"
    } else if d == 8 {
        "8"
    } else {
        "9"
    };
    proof {
        assert(s@ =~= seq![digit_char(d as nat)]);
    }
    s
}

/// The decimal text of `n`, used to label positional columns.
pub fn dec_string(n: usize) -> (s: String)
    ensures
        s@ == dec_of(n as nat),
    decreases n,
{
    if n < 10 {
        String::from_str(digit_str(n))
    } else {
        let mut s = dec_string(n / 10);
        s.append(digit_str(n % 10));
        s
    }
}

/// The meaning of the argument list from position `i` on, with `n` the
/// count of arguments already handled at the top of the scan and `acc`
/// the configuration built so far.  Flag arguments toggle the header and
/// the escape mode; `--flat` takes the next argument as a flatten path;
/// `-c` takes the next two as a column's label and path; anything else is
/// a positional column whose label is the scan count's decimal text.
pub open spec fn parse_from(
    args: Seq<Seq<char>>,
    i: int,
    n: nat,
    acc: ConfigModel,
) -> Result<ConfigModel, ConfigError>
    decreases args.len() - i,
{
    if i < 0 || i >= args.len() {
        Ok(acc)
    } else {
        let a = args[i];
        if a == "--no-head"@ {
            parse_from(args, i + 1, n + 1, ConfigModel { header: false, ..acc })
        } else if a == "--no-escape"@ {
            parse_from(args, i + 1, n + 1, ConfigModel { escape: false, ..acc })
        } else if a == "--flat"@ {
            if i + 1 >= args.len() {
                Err(ConfigError::MissingFlatPath)
            } else {
                parse_from(
                    args,
                    i + 2,
                    n + 1,
                    ConfigModel { flats: acc.flats.push(args[i + 1]), ..acc },
                )
            }
        } else if a == "-c"@ {
            if i + 1 >= args.len() {
                Err(ConfigError::MissingColumnKey)
            } else if i + 2 >= args.len() {
                Err(ConfigError::MissingColumnPath)
            } else {
                parse_from(
                    args,
                    i + 3,
                    n + 1,
                    ConfigModel { columns: acc.columns.push((args[i + 1], args[i + 2])), ..acc },
                )
            }
        } else {
            parse_from(
                args,
                i + 1,
                n + 1,
                ConfigModel { columns: acc.columns.push((dec_of(n), a)), ..acc },
            )
        }
    }
}

/// The configuration that a whole argument list means: header and escape
/// mode on by default, no columns and no flatten paths.
pub open spec fn parse_conf(args: Seq<Seq<char>>) -> Result<ConfigModel, ConfigError> {
    parse_from(
        args,
        0,
        0,
        ConfigModel { header: true, escape: true, columns: Seq::empty(), flats: Seq::empty() },
    )
}

/// Builds the configuration from the argument list (the arguments after
/// the program name, in order).
pub fn parse_args(args: Vec<String>) -> (r: Result<Config, ConfigError>)
    ensures
        match r {
            Ok(c) => parse_conf(args@.map_values(|s: String| s@)) == Ok::<
                ConfigModel,
                ConfigError,
            >(c@),
            Err(e) => parse_conf(args@.map_values(|s: String| s@)) == Err::<
                ConfigModel,
                ConfigError,
            >(e),
        },
{
    let ghost av = args@.map_values(|s: String| s@);
    let mut header = true;
    let mut escape = true;
    let mut columns: Vec<(String, String)> = Vec::new();
    let mut flats: Vec<String> = Vec::new();
    let mut i: usize = 0;
    let mut n: usize = 0;
    proof {
        assert(col_views(columns@) =~= Seq::<(Seq<char>, Seq<char>)>::empty());
        assert(flats@.map_values(|s: String| s@) =~= Seq::<Seq<char>>::empty());
    }
    while i < args.len()
        invariant
            i <= args.len(),
            n <= i,
            av == args@.map_values(|s: String| s@),
            parse_conf(av) == parse_from(
                av,
                i as int,
                n as nat,
                ConfigModel {
                    header,
                    escape,
                    columns: col_views(columns@),
                    flats: flats@.map_values(|s: String| s@),
                },
            ),
        decreases args.len() - i,
    {
        let arg = &args[i];
        proof {
            assert(av[i as int] == arg@);
        }
        if *arg == String::from_str("--no-head") {
            header = false;
            i = i + 1;
        } else if *arg == String::from_str("--no-escape") {
            escape = false;
            i = i + 1;
        } else if *arg == String::from_str("--flat") {
            if i + 1 >= args.len() {
                return Err(ConfigError::MissingFlatPath);
            }
            let ghost f0 = flats@;
            flats.push(String::from_str(args[i + 1].as_str()));
            proof {
                assert(flats@.map_values(|s: String| s@) =~= f0.map_values(
                    |s: String| s@).push(av[i + 1]));
            }
            i = i + 2;
        } else if *arg == String::from_str("-c") {
            if i + 1 >= args.len() {
                return Err(ConfigError::MissingColumnKey);
            }
            if i + 2 >= args.len() {
                return Err(ConfigError::MissingColumnPath);
            }
            let ghost c0 = columns@;
            let label = String::from_str(args[i + 1].as_str());
            let path = String::from_str(args[i + 2].as_str());
            columns.push((label, path));
            proof {
                assert(col_views(columns@) =~= col_views(c0).push((av[i + 1], av[i + 2])));
            }
            i = i + 3;
        } else {
            let ghost c0 = columns@;
            let label = dec_string(n);
            let path = String::from_str(arg.as_str());
            columns.push((label, path));
            proof {
                assert(col_views(columns@) =~= col_views(c0).push((dec_of(n as nat), av[i as int])));
            }
            i = i + 1;
        }
        n = n + 1;
        proof {
            assert(parse_conf(av) == parse_from(av, i as int, n as nat, ConfigModel {
                header,
                escape,
                columns: col_views(columns@),
                flats: flats@.map_values(|s: String| s@),
            }));
        }
    }
    let c = Config { header, string_escape: escape, columns, flat_path: flats };
    proof {
        assert(parse_conf(av) == Ok::<ConfigModel, ConfigError>(c@));
    }
    Ok(c)
}

} // verus!
