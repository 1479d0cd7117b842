//! Command-line arguments: boolean flags (`--x`) and options (`--k v`).
use vstd::prelude::*;
use vstd::string::*;

use crate::text::{has_prefix, same_text};

verus! {

/// Why a command line was refused.
#[derive(Debug, PartialEq, Eq)]
pub enum ArgError {
    /// An argument that does not start with `--`.
    Unexpected(String),
    /// An option, named without its `--`, that ends the line.
    MissingValue(String),
}

/// What a command line comes to, or why it is refused.
#[verifier::ext_equal]
pub enum Parsed {
    Args { flags: Seq<Seq<char>>, options: Seq<(Seq<char>, Seq<char>)> },
    Unexpected(Seq<char>),
    MissingValue(Seq<char>),
}

/// Whether an option takes no value.
pub open spec fn is_flag(key: Seq<char>) -> bool {
    key == "no-dashboard"@ || key == "calibrate"@
}

/// Whether an argument names a flag or an option.
pub open spec fn is_key(arg: Seq<char>) -> bool {
    "--"@.is_prefix_of(arg)
}

/// What arguments come to after those already read.
pub open spec fn parsed_from(
    args: Seq<Seq<char>>,
    flags: Seq<Seq<char>>,
    options: Seq<(Seq<char>, Seq<char>)>,
) -> Parsed
    decreases args.len(),
{
    if args.len() == 0 {
        Parsed::Args { flags, options }
    } else if !is_key(args[0]) {
        Parsed::Unexpected(args[0])
    } else {
        let key = args[0].skip(2);
        if is_flag(key) {
            parsed_from(args.skip(1), flags.push(key), options)
        } else if args.len() < 2 {
            Parsed::MissingValue(key)
        } else {
            parsed_from(args.skip(2), flags, options.push((key, args[1])))
        }
    }
}

/// What a command line comes to: its flags and its options, in order.
pub open spec fn parsed(args: Seq<Seq<char>>) -> Parsed {
    parsed_from(args, Seq::empty(), Seq::empty())
}

/// The texts of strings.
pub open spec fn texts(v: Seq<String>) -> Seq<Seq<char>> {
    v.map_values(|s: String| s@)
}

/// The texts of pairs of strings.
pub open spec fn text_pairs(v: Seq<(String, String)>) -> Seq<(Seq<char>, Seq<char>)> {
    v.map_values(|p: (String, String)| (p.0@, p.1@))
}

/// The value of an option: the last one given.
pub open spec fn last_value(options: Seq<(Seq<char>, Seq<char>)>, key: Seq<char>) -> Option<
    Seq<char>,
>
    decreases options.len(),
{
    if options.len() == 0 {
        None
    } else if options.last().0 == key {
        Some(options.last().1)
    } else {
        last_value(options.drop_last(), key)
    }
}

/// Parsed options.
#[derive(Debug)]
pub struct Opts {
    pairs: Vec<(String, String)>,
}

impl View for Opts {
    type V = Seq<(Seq<char>, Seq<char>)>;

    closed spec fn view(&self) -> Seq<(Seq<char>, Seq<char>)> {
        text_pairs(self.pairs@)
    }
}

impl Opts {
    /// The value of an option, the last one if it was given more than once.
    pub fn get(&self, key: &str) -> (r: Option<&str>)
        ensures
            r is Some <==> last_value(self@, key@) is Some,
            r is Some ==> r->0@ == last_value(self@, key@)->0,
    {
        let mut i: usize = self.pairs.len();
        assert(self@.take(i as int) =~= self@);
        while i > 0
            invariant
                i <= self.pairs@.len(),
                last_value(self@, key@) == last_value(self@.take(i as int), key@),
            decreases i,
        {
            i -= 1;
            let (k, v) = &self.pairs[i];
            proof {
                let longer = self@.take(i + 1);
                assert(longer.drop_last() =~= self@.take(i as int));
                assert(longer.last() == (k@, v@));
            }
            if same_text(k.as_str(), key) {
                return Some(v.as_str());
            }
        }
        None
    }
}

/// Whether the command line asks for help.
pub fn wants_help(args: &Vec<String>) -> (r: bool)
    ensures
        r == (texts(args@).contains("-h"@) || texts(args@).contains("--help"@)),
{
    let mut i: usize = 0;
    while i < args.len()
        invariant
            i <= args@.len(),
            forall|j: int|
                0 <= j < i ==> (#[trigger] args@[j])@ != "-h"@ && args@[j]@ != "--help"@,
        decreases args@.len() - i,
    {
        if same_text(args[i].as_str(), "-h") || same_text(args[i].as_str(), "--help") {
            assert(texts(args@)[i as int] == args@[i as int]@);
            return true;
        }
        i += 1;
    }
    proof {
        assert forall|j: int| 0 <= j < texts(args@).len() implies #[trigger] texts(args@)[j]
            != "-h"@ && texts(args@)[j] != "--help"@ by {
            assert(texts(args@)[j] == args@[j]@);
        }
    }
    false
}

/// Whether a flag was given.
pub fn has_flag(flags: &Vec<String>, flag: &str) -> (r: bool)
    ensures
        r == texts(flags@).contains(flag@),
{
    let mut i: usize = 0;
    while i < flags.len()
        invariant
            i <= flags@.len(),
            forall|j: int| 0 <= j < i ==> (#[trigger] flags@[j])@ != flag@,
        decreases flags@.len() - i,
    {
        if same_text(flags[i].as_str(), flag) {
            assert(texts(flags@)[i as int] == flags@[i as int]@);
            return true;
        }
        i += 1;
    }
    proof {
        assert forall|j: int| 0 <= j < texts(flags@).len() implies #[trigger] texts(flags@)[j]
            != flag@ by {
            assert(texts(flags@)[j] == flags@[j]@);
        }
    }
    false
}

/// Parses a command line into its flags and its options.
pub fn parse_args(args: &Vec<String>) -> (r: Result<(Vec<String>, Opts), ArgError>)
    ensures
        match r {
            Ok((flags, opts)) => parsed(texts(args@)) == (Parsed::Args {
                flags: texts(flags@),
                options: opts@,
            }),
            Err(ArgError::Unexpected(arg)) => parsed(texts(args@)) == Parsed::Unexpected(arg@),
            Err(ArgError::MissingValue(key)) => parsed(texts(args@)) == Parsed::MissingValue(key@),
        },
{
    let mut flags: Vec<String> = Vec::new();
    let mut pairs: Vec<(String, String)> = Vec::new();
    let mut i: usize = 0;
    let ghost all = texts(args@);
    assert(all.skip(0) =~= all);
    assert(texts(flags@) =~= Seq::<Seq<char>>::empty());
    assert(text_pairs(pairs@) =~= Seq::<(Seq<char>, Seq<char>)>::empty());
    while i < args.len()
        invariant
            i <= args@.len(),
            all == texts(args@),
            parsed(all) == parsed_from(all.skip(i as int), texts(flags@), text_pairs(pairs@)),
        decreases args@.len() - i,
    {
        let arg = args[i].as_str();
        let ghost rest = all.skip(i as int);
        proof {
            assert(rest[0] == arg@);
        }
        if !has_prefix(arg, "--") {
            return Err(ArgError::Unexpected(arg.to_owned()));
        }
        proof {
            reveal_strlit("--");
        }
        let key = arg.substring_char(2, arg.unicode_len());
        assert(key@ =~= arg@.skip(2));
        if same_text(key, "no-dashboard") || same_text(key, "calibrate") {
            let ghost before = flags@;
            flags.push(key.to_owned());
            proof {
                assert(texts(flags@) =~= texts(before).push(key@));
                assert(rest.skip(1) =~= all.skip(i + 1));
            }
            i += 1;
        } else {
            if args.len() - i < 2 {
                return Err(ArgError::MissingValue(key.to_owned()));
            }
            let value = args[i + 1].clone();
            let ghost before = pairs@;
            pairs.push((key.to_owned(), value));
            proof {
                assert(rest[1] == args@[i + 1]@);
                assert(text_pairs(pairs@) =~= text_pairs(before).push((key@, rest[1])));
                assert(rest.skip(2) =~= all.skip(i + 2));
            }
            i += 2;
        }
    }
    assert(all.skip(i as int) =~= Seq::<Seq<char>>::empty());
    Ok((flags, Opts { pairs }))
}

impl ArgError {
    /// What to tell the user.
    pub fn message(&self) -> (r: String)
        ensures
            r@ == match *self {
                ArgError::Unexpected(arg) => "unexpected argument `"@ + arg@ + "`"@,
                ArgError::MissingValue(key) => "missing value for `--"@ + key@ + "`"@,
            },
    {
        match self {
            ArgError::Unexpected(arg) => {
                let mut out = "unexpected argument `".to_owned();
                out.append(arg.as_str());
                out.append("`");
                out
            },
            ArgError::MissingValue(key) => {
                let mut out = "missing value for `--".to_owned();
                out.append(key.as_str());
                out.append("`");
                out
            },
        }
    }
}

/// Of an option given more than once, the last value counts.
pub proof fn last_option_wins(
    options: Seq<(Seq<char>, Seq<char>)>,
    key: Seq<char>,
    value: Seq<char>,
    other: Seq<char>,
)
    ensures
        last_value(options.push((key, value)), key) == Some(value),
        other != key ==> last_value(options.push((key, value)), other) == last_value(options, other),
{
    assert(options.push((key, value)).drop_last() =~= options);
}

/// A command line is read in order, whatever was read before: a flag joins the
/// flags, any other `--` argument takes the next one as its value, a `--` argument
/// at the end misses its value, and anything else is unexpected. What was read
/// before an error does not matter.
pub proof fn command_lines_are_read_in_order(
    key: Seq<char>,
    value: Seq<char>,
    rest: Seq<Seq<char>>,
    flags: Seq<Seq<char>>,
    options: Seq<(Seq<char>, Seq<char>)>,
    stray: Seq<char>,
)
    requires
        stray.len() < 2 || stray[0] != '-' || stray[1] != '-',
    ensures
        key == "no-dashboard"@ || key == "calibrate"@ ==> parsed_from(
            seq!["--"@ + key] + rest,
            flags,
            options,
        ) == parsed_from(rest, flags.push(key), options),
        key != "no-dashboard"@ && key != "calibrate"@ ==> parsed_from(
            seq!["--"@ + key, value] + rest,
            flags,
            options,
        ) == parsed_from(rest, flags, options.push((key, value))),
        key != "no-dashboard"@ && key != "calibrate"@ ==> parsed_from(
            seq!["--"@ + key],
            flags,
            options,
        ) == Parsed::MissingValue(key),
        parsed_from(seq![stray] + rest, flags, options) == Parsed::Unexpected(stray),
        parsed_from(Seq::empty(), flags, options) == (Parsed::Args { flags, options }),
        parsed(rest) == parsed_from(rest, Seq::empty(), Seq::empty()),
{
    reveal_strlit("--");
    let arg = "--"@ + key;
    assert(arg.subrange(0, 2) =~= "--"@);
    assert(arg.skip(2) =~= key);
    assert((seq![arg] + rest).skip(1) =~= rest);
    assert((seq![arg, value] + rest).skip(2) =~= rest);
    assert((seq![arg, value] + rest)[1] == value);
    assert((seq![stray] + rest)[0] == stray);
    if "--"@.is_prefix_of(stray) {
        assert(stray.subrange(0, 2)[0] == '-');
        assert(stray.subrange(0, 2)[1] == '-');
    }
}

/// An option that was not given has no value; one that was has the last value
/// given.
pub proof fn values_are_the_last_given(
    options: Seq<(Seq<char>, Seq<char>)>,
    key: Seq<char>,
    i: int,
)
    ensures
        (forall|j: int| 0 <= j < options.len() ==> (#[trigger] options[j]).0 != key) ==> last_value(
            options,
            key,
        ) is None,
        0 <= i < options.len() && options[i].0 == key && (forall|j: int|
            i < j < options.len() ==> (#[trigger] options[j]).0 != key) ==> last_value(options, key)
            == Some(options[i].1),
    decreases options.len(),
{
    if options.len() > 0 {
        let front = options.drop_last();
        values_are_the_last_given(front, key, i);
        assert(options.last() == options[options.len() - 1]);
        assert(forall|j: int| 0 <= j < front.len() ==> #[trigger] front[j] == options[j]);
    }
}

} // verus!
