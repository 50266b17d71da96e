//! What a user can ask for, and how the command line says it.
use crate::text::{parse_u16, parsed_u16};
use vstd::prelude::*;

verus! {

/// A request for a calendar.
#[derive(Debug, Clone, Copy, PartialEq, Eq)]
pub struct Opt {
    /// The year to display; the current year where there is none.
    pub year: Option<u16>,
    /// The month to display; the current month where there is none.
    pub month: Option<u16>,
    /// The number of months to display after that month.
    pub months_after: u16,
    /// The number of months to display before that month.
    pub months_before: u16,
}

/// One argument of a command line.
#[derive(Debug, PartialEq, Eq)]
pub struct Argument {
    /// The argument as text. Of an argument that is not valid Unicode, this
    /// is what can be shown.
    pub text: String,
    /// Whether the argument is valid Unicode.
    pub is_unicode: bool,
}

impl Argument {
    /// Whether the argument is the option `key`.
    pub open spec fn names(self, key: Seq<char>) -> bool {
        self.is_unicode && self.text@ == key
    }
}

/// The arguments of a command line, without the name of the program.
#[derive(Debug, PartialEq, Eq)]
pub struct Arguments {
    pub args: Vec<Argument>,
}

/// What a command line asks the program to do.
#[derive(Debug, PartialEq, Eq)]
pub enum Invocation {
    /// To explain how it is used.
    Help,
    /// To say which version it is.
    Version,
    /// To display a calendar.
    Run(Opt),
    /// Nothing that it can do. Holds the reason.
    Reject(String),
}

/// Whether one of `args` is the option `key`.
pub open spec fn has(args: Seq<Argument>, key: Seq<char>) -> bool {
    exists|i: int| 0 <= i < args.len() && (#[trigger] args[i]).names(key)
}

/// The value of the option `key`: the argument that follows the first `key`
/// among `args`. There is none where no argument is `key`, and none where the
/// first `key` is the last argument.
pub open spec fn value_of(args: Seq<Argument>, key: Seq<char>) -> Option<Argument>
    decreases args.len(),
{
    if args.len() == 0 {
        None
    } else if args[0].names(key) {
        if args.len() > 1 {
            Some(args[1])
        } else {
            None
        }
    } else {
        value_of(args.skip(1), key)
    }
}

/// The value of the option `key` as a number: nothing where the option has
/// no value, and an error where its value is not valid Unicode or does not
/// write a number of sixteen bits.
pub open spec fn number_of(args: Seq<Argument>, key: Seq<char>) -> Result<Option<u16>, Seq<char>> {
    match value_of(args, key) {
        None => Ok(None),
        Some(value) => if !value.is_unicode {
            Err("invalid argument for '"@ + key + "' "@ + value.text@)
        } else {
            match parsed_u16(value.text@) {
                Ok(number) => Ok(Some(number)),
                Err(e) => Err(
                    "failed to parse value '"@ + value.text@ + "' for key '"@ + key + "': "@
                        + e.message_text(),
                ),
            }
        },
    }
}

/// The number that was read, or `default` where none was given.
pub open spec fn number_or(number: Option<u16>, default: u16) -> u16 {
    match number {
        Some(n) => n,
        None => default,
    }
}

/// The request that `args` make: the year from `-y`, the month from `-m`, the
/// months after from `-A` and the months before from `-B`, where none after
/// and none before is meant by leaving the option out. The first option in
/// that order whose value is no number makes the error.
pub open spec fn parsed(args: Seq<Argument>) -> Result<Opt, Seq<char>> {
    match number_of(args, "-y"@) {
        Err(e) => Err(e),
        Ok(year) => match number_of(args, "-m"@) {
            Err(e) => Err(e),
            Ok(month) => match number_of(args, "-A"@) {
                Err(e) => Err(e),
                Ok(after) => match number_of(args, "-B"@) {
                    Err(e) => Err(e),
                    Ok(before) => Ok(
                        Opt {
                            year,
                            month,
                            months_after: number_or(after, 0),
                            months_before: number_or(before, 0),
                        },
                    ),
                },
            },
        },
    }
}

/// Whether `args` ask for help.
pub open spec fn asks_help(args: Seq<Argument>) -> bool {
    has(args, "-h"@) || has(args, "--help"@)
}

/// Whether `args` ask for the version.
pub open spec fn asks_version(args: Seq<Argument>) -> bool {
    has(args, "-V"@) || has(args, "--version"@)
}

impl Arguments {
    /// Whether one of the arguments is the option `key`.
    pub fn contains(&self, key: &str) -> (found: bool)
        ensures
            found == has(self.args@, key@),
    {
        let wanted: String = key.to_owned();
        let mut i: usize = 0;
        while i < self.args.len()
            invariant
                i <= self.args.len(),
                wanted@ == key@,
                forall|j: int| 0 <= j < i ==> !(#[trigger] self.args[j]).names(key@),
            decreases self.args.len() - i,
        {
            if self.args[i].is_unicode && self.args[i].text == wanted {
                return true;
            }
            i = i + 1;
        }
        false
    }

    /// The value of the option `key`: the argument after the first `key`.
    pub fn opt_value(&self, key: &str) -> (value: Option<&Argument>)
        ensures
            match value {
                Some(v) => value_of(self.args@, key@) == Some(*v),
                None => value_of(self.args@, key@) is None,
            },
    {
        let wanted: String = key.to_owned();
        let mut i: usize = 0;
        assert(self.args@.skip(0) =~= self.args@);
        while i < self.args.len()
            invariant
                i <= self.args.len(),
                wanted@ == key@,
                value_of(self.args@, key@) == value_of(self.args@.skip(i as int), key@),
            decreases self.args.len() - i,
        {
            let ghost rest = self.args@.skip(i as int);
            assert(rest[0] == self.args[i as int]);
            if self.args[i].is_unicode && self.args[i].text == wanted {
                if i + 1 < self.args.len() {
                    assert(rest[1] == self.args[i + 1]);
                    return Some(&self.args[i + 1]);
                } else {
                    return None;
                }
            }
            assert(rest.skip(1) =~= self.args@.skip(i + 1));
            i = i + 1;
        }
        None
    }

    /// The value of the option `key` as a number, where the option has a
    /// value.
    pub fn opt_value_as_u16(&self, key: &str) -> (number: Result<Option<u16>, String>)
        ensures
            match number {
                Ok(n) => number_of(self.args@, key@) == Ok::<Option<u16>, Seq<char>>(n),
                Err(message) => number_of(self.args@, key@) == Err::<Option<u16>, Seq<char>>(
                    message@,
                ),
            },
    {
        let value = match self.opt_value(key) {
            Some(value) => value,
            None => {
                return Ok(None);
            },
        };
        if !value.is_unicode {
            let mut message = String::new();
            message.append("invalid argument for '");
            message.append(key);
            message.append("' ");
            message.append(value.text.as_str());
            assert(message@ =~= "invalid argument for '"@ + key@ + "' "@ + value.text@);
            return Err(message);
        }
        match parse_u16(value.text.as_str()) {
            Ok(number) => Ok(Some(number)),
            Err(e) => {
                let mut message = String::new();
                message.append("failed to parse value '");
                message.append(value.text.as_str());
                message.append("' for key '");
                message.append(key);
                message.append("': ");
                message.append(e.message());
                assert(message@ =~= "failed to parse value '"@ + value.text@ + "' for key '"@
                    + key@ + "': "@ + e.message_text());
                Err(message)
            },
        }
    }
}

impl Opt {
    /// The request that the arguments make.
    pub fn parse(args: &Arguments) -> (request: Result<Opt, String>)
        ensures
            match request {
                Ok(opt) => parsed(args.args@) == Ok::<Opt, Seq<char>>(opt),
                Err(message) => parsed(args.args@) == Err::<Opt, Seq<char>>(message@),
            },
    {
        let year = match args.opt_value_as_u16("-y") {
            Ok(year) => year,
            Err(message) => {
                return Err(message);
            },
        };
        let month = match args.opt_value_as_u16("-m") {
            Ok(month) => month,
            Err(message) => {
                return Err(message);
            },
        };
        let after = match args.opt_value_as_u16("-A") {
            Ok(after) => after,
            Err(message) => {
                return Err(message);
            },
        };
        let before = match args.opt_value_as_u16("-B") {
            Ok(before) => before,
            Err(message) => {
                return Err(message);
            },
        };
        Ok(
            Opt {
                year,
                month,
                months_after: match after {
                    Some(n) => n,
                    None => 0,
                },
                months_before: match before {
                    Some(n) => n,
                    None => 0,
                },
            },
        )
    }

    /// What the arguments ask the program to do. A call for help comes before
    /// a call for the version, and both come before a request for a calendar.
    pub fn interpret(args: &Arguments) -> (invocation: Invocation)
        ensures
            asks_help(args.args@) ==> invocation is Help,
            !asks_help(args.args@) && asks_version(args.args@) ==> invocation is Version,
            !asks_help(args.args@) && !asks_version(args.args@) ==> match invocation {
                Invocation::Run(opt) => parsed(args.args@) == Ok::<Opt, Seq<char>>(opt),
                Invocation::Reject(message) => parsed(args.args@) == Err::<Opt, Seq<char>>(
                    message@,
                ),
                _ => false,
            },
    {
        if args.contains("-h") || args.contains("--help") {
            return Invocation::Help;
        }
        if args.contains("-V") || args.contains("--version") {
            return Invocation::Version;
        }
        match Opt::parse(args) {
            Ok(opt) => Invocation::Run(opt),
            Err(message) => Invocation::Reject(message),
        }
    }
}

} // verus!
