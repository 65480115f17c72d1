//! What a run is asked to do, read off its command-line arguments.
use vstd::prelude::*;

use crate::text::{all_digits, digit_value, texts_view};

verus! {

/// The arguments of a run: the files to seed from, the file and the number
/// of rows for a synthetic seed, and the file to write a template to.
#[derive(Clone, Debug, PartialEq, Eq)]
pub struct Args {
    pub file_paths: Vec<String>,
    pub random: Option<Vec<String>>,
    pub create: Option<String>,
}

/// What a run does.
#[derive(Clone, Debug, PartialEq, Eq)]
pub enum Command {
    /// Insert the rows of each file, one file after another.
    Seed(Vec<String>),
    /// Synthesise `count` rows for the table of the file and insert them.
    Random { file_path: String, count: usize },
    /// Write a template to the file.
    Create(String),
    /// Nothing was asked for.
    Nothing,
}

/// Why the arguments name no command.
#[derive(Clone, Copy, Debug, PartialEq, Eq, Structural)]
pub enum UsageError {
    /// A synthetic seed takes exactly a file and a number.
    RandomArity,
    /// The number of rows is not written as a number.
    InvalidCount,
}

/// The arguments as contracts see them.
pub struct ArgsView {
    pub file_paths: Seq<Seq<char>>,
    pub random: Option<Seq<Seq<char>>>,
    pub create: Option<Seq<char>>,
}

/// A command as contracts see it.
pub enum CommandView {
    Seed(Seq<Seq<char>>),
    Random { file_path: Seq<char>, count: usize },
    Create(Seq<char>),
    Nothing,
}

impl View for Args {
    type V = ArgsView;

    open spec fn view(&self) -> ArgsView {
        ArgsView {
            file_paths: texts_view(self.file_paths),
            random: match self.random {
                Some(pair) => Some(texts_view(pair)),
                None => None,
            },
            create: match self.create {
                Some(path) => Some(path@),
                None => None,
            },
        }
    }
}

impl View for Command {
    type V = CommandView;

    open spec fn view(&self) -> CommandView {
        match *self {
            Command::Seed(paths) => CommandView::Seed(texts_view(paths)),
            Command::Random { file_path, count } => CommandView::Random {
                file_path: file_path@,
                count,
            },
            Command::Create(path) => CommandView::Create(path@),
            Command::Nothing => CommandView::Nothing,
        }
    }
}

/// The words for a usage error.
pub open spec fn usage_message(error: UsageError) -> Seq<char> {
    match error {
        UsageError::RandomArity =>
            "The --random option requires exactly 2 arguments: <file_path> and <number>"@,
        UsageError::InvalidCount => "Invalid number format for random data entries"@,
    }
}

impl UsageError {
    /// Says in words what is wrong with the arguments.
    pub fn message(&self) -> (words: String)
        ensures
            words@ == usage_message(*self),
    {
        match self {
            UsageError::RandomArity => String::from_str(
                "The --random option requires exactly 2 arguments: <file_path> and <number>",
            ),
            UsageError::InvalidCount => String::from_str(
                "Invalid number format for random data entries",
            ),
        }
    }
}

/// The number that a run of decimal digits writes.
pub open spec fn digits_value(text: Seq<char>) -> nat
    decreases text.len(),
{
    if text.len() == 0 {
        0
    } else {
        digits_value(text.drop_last()) * 10 + digit_value(text.last()).unwrap()
    }
}

/// A count without the plus sign that may stand in front of it.
pub open spec fn unsigned_part(text: Seq<char>) -> Seq<char> {
    if text.len() > 0 && text[0] == '+' {
        text.skip(1)
    } else {
        text
    }
}

/// The count that a text writes: one decimal digit or more, after at most
/// one plus sign, with a value that the machine's word holds.
pub open spec fn count_of(text: Seq<char>) -> Option<usize> {
    let digits = unsigned_part(text);
    if digits.len() > 0 && all_digits(digits) && digits_value(digits) <= usize::MAX {
        Some(digits_value(digits) as usize)
    } else {
        None
    }
}

/// The command that the arguments name. Files to seed from come first; a
/// synthetic seed is looked at only without them, a template only without
/// both.
pub open spec fn command_of(args: ArgsView) -> Result<CommandView, UsageError> {
    if args.file_paths.len() > 0 {
        Ok(CommandView::Seed(args.file_paths))
    } else if let Some(pair) = args.random {
        if pair.len() != 2 {
            Err(UsageError::RandomArity)
        } else if let Some(count) = count_of(pair[1]) {
            Ok(CommandView::Random { file_path: pair[0], count })
        } else {
            Err(UsageError::InvalidCount)
        }
    } else if let Some(path) = args.create {
        Ok(CommandView::Create(path))
    } else {
        Ok(CommandView::Nothing)
    }
}

/// The outcome of reading the arguments, the command by its view.
pub open spec fn command_view(command: Result<Command, UsageError>) -> Result<
    CommandView,
    UsageError,
> {
    match command {
        Ok(c) => Ok(c@),
        Err(e) => Err(e),
    }
}

/// Reads a decimal digit.
pub fn parse_digit(c: char) -> (value: Option<u8>)
    ensures
        match value {
            Some(d) => digit_value(c) == Some(d as nat),
            None => digit_value(c).is_none(),
        },
{
    match c {
        '0' => Some(0),
        '1' => Some(1),
        '2' => Some(2),
        '3' => Some(3),
        '4' => Some(4),
        '5' => Some(5),
        '6' => Some(6),
        '7' => Some(7),
        '8' => Some(8),
        '9' => Some(9),
        _ => None,
    }
}

proof fn lemma_digits_value_grows(text: Seq<char>, k: int)
    requires
        0 <= k <= text.len(),
        all_digits(text),
    ensures
        digits_value(text.take(k)) <= digits_value(text),
    decreases text.len() - k,
{
    if k < text.len() {
        let longer = text.take(k + 1);
        assert(longer.drop_last() =~= text.take(k));
        assert(digit_value(text[k]).is_some());
        lemma_digits_value_grows(text, k + 1);
    } else {
        assert(text.take(k) =~= text);
    }
}

/// Reads a count of rows.
pub fn parse_count(text: &str) -> (count: Option<usize>)
    ensures
        count == count_of(text@),
{
    let length = text.unicode_len();
    let start: usize = if length > 0 && text.get_char(0) == '+' {
        1
    } else {
        0
    };
    let ghost digits = unsigned_part(text@);
    if start == length {
        return None;
    }
    let mut value: usize = 0;
    let mut i: usize = start;
    while i < length
        invariant
            start <= i <= length,
            length == text@.len(),
            digits == text@.skip(start as int),
            digits == unsigned_part(text@),
            all_digits(digits.take(i - start)),
            value == digits_value(digits.take(i - start)),
        decreases length - i,
    {
        let ghost seen = digits.take(i - start);
        let ghost longer = digits.take(i - start + 1);
        proof {
            assert(longer.drop_last() =~= seen);
            assert(longer.last() == text@[i as int]);
        }
        match parse_digit(text.get_char(i)) {
            Some(d) => {
                proof {
                    assert forall|k: int| 0 <= k < longer.len() implies digit_value(
                        #[trigger] longer[k],
                    ).is_some() by {
                        if k < seen.len() {
                            assert(longer[k] == seen[k]);
                        }
                    }
                }
                if value > (usize::MAX - d as usize) / 10 {
                    proof {
                        assert(digits_value(longer) == value * 10 + d);
                        assert(value * 10 + d > usize::MAX);
                        if all_digits(digits) {
                            lemma_digits_value_grows(digits, i - start + 1);
                        }
                    }
                    return None;
                }
                value = value * 10 + d as usize;
            },
            None => {
                assert(digits[i - start] == text@[i as int]);
                assert(!digit_value(digits[i - start]).is_some());
                return None;
            },
        }
        i += 1;
    }
    assert(digits.take(length - start) =~= digits);
    Some(value)
}

/// Decides what a run does.
///
/// Files to seed from win over everything else. Without them a synthetic
/// seed needs exactly a file and a well-written number of rows, and is an
/// error otherwise. A template is written only where neither was asked for.
pub fn run(args: Args) -> (command: Result<Command, UsageError>)
    ensures
        command_view(command) == command_of(args@),
{
    let Args { file_paths, random, create } = args;
    if file_paths.len() > 0 {
        return Ok(Command::Seed(file_paths));
    }
    if let Some(mut pair) = random {
        if pair.len() != 2 {
            return Err(UsageError::RandomArity);
        }
        let ghost texts = texts_view(pair);
        let count = parse_count(pair[1].as_str());
        let file_path = pair.swap_remove(0);
        assert(file_path@ == texts[0]);
        return match count {
            Some(count) => Ok(Command::Random { file_path, count }),
            None => Err(UsageError::InvalidCount),
        };
    }
    if let Some(path) = create {
        return Ok(Command::Create(path));
    }
    Ok(Command::Nothing)
}

} // verus!
