use vstd::prelude::*;
use crate::matcher::{Matcher, PredicateKind};

verus! {

/// A command addressed to the bot.
pub enum Command {
    /// Text that does not start with the bot's prefix.
    Unaddressed,
    Ping,
    Help,
    /// A search of the history before the command, with its argument.
    Search(PredicateKind, String),
}

/// The mathematical value of a [`Command`].
pub ghost enum CommandView {
    Unaddressed,
    Ping,
    Help,
    Search(PredicateKind, Seq<char>),
}

impl View for Command {
    type V = CommandView;

    open spec fn view(&self) -> CommandView {
        match self {
            Command::Unaddressed => CommandView::Unaddressed,
            Command::Ping => CommandView::Ping,
            Command::Help => CommandView::Help,
            Command::Search(k, a) => CommandView::Search(*k, a@),
        }
    }
}

/// Why a command addressed to the bot cannot be carried out.
#[derive(Clone, Copy, Debug, PartialEq, Eq, Structural)]
pub enum CommandError {
    /// A search keyword came with no search argument, or with white space alone.
    MissingArgument,
    /// The keyword is none of those the bot knows, or is absent.
    UnrecognizedCommand,
}

/// The prefix that addresses a command to the bot.
pub open spec fn bot_prefix() -> Seq<char> {
    "/s"@
}

/// `i` is the position of the first space of `s`.
pub open spec fn is_first_space(s: Seq<char>, i: int) -> bool {
    0 <= i < s.len() && s[i] == ' ' && forall|j: int| 0 <= j < i ==> s[j] != ' '
}

/// `s` split at its first space: the part before it, and what follows it if
/// there is a space.
pub open spec fn split_first(s: Seq<char>) -> (Seq<char>, Option<Seq<char>>) {
    if exists|i: int| is_first_space(s, i) {
        let i = choose|i: int| is_first_space(s, i);
        (s.subrange(0, i), Some(s.subrange(i + 1, s.len() as int)))
    } else {
        (s, None)
    }
}

/// The prefix, keyword and argument of a command's text: at most three
/// pieces, split at the first two spaces; the argument keeps any further spaces.
pub open spec fn tokens(s: Seq<char>) -> Seq<Seq<char>> {
    let (a, rest) = split_first(s);
    match rest {
        None => seq![a],
        Some(r) => {
            let (b, tail) = split_first(r);
            match tail {
                None => seq![a, b],
                Some(c) => seq![a, b, c],
            }
        },
    }
}

/// `c` is a white-space character in Unicode's sense (the `White_Space` property).
pub open spec fn is_white(c: char) -> bool {
    ('\u{9}' <= c && c <= '\u{d}') || c == ' ' || c == '\u{85}' || c == '\u{a0}' || c
        == '\u{1680}' || ('\u{2000}' <= c && c <= '\u{200a}') || c == '\u{2028}' || c
        == '\u{2029}' || c == '\u{202f}' || c == '\u{205f}' || c == '\u{3000}'
}

/// `s` holds no character but white space (an empty `s` included).
pub open spec fn blank(s: Seq<char>) -> bool {
    forall|i: int| 0 <= i < s.len() ==> is_white(#[trigger] s[i])
}

fn white(c: char) -> (r: bool)
    ensures
        r == is_white(c),
{
    ('\u{9}' <= c && c <= '\u{d}') || c == ' ' || c == '\u{85}' || c == '\u{a0}' || c
        == '\u{1680}' || ('\u{2000}' <= c && c <= '\u{200a}') || c == '\u{2028}' || c
        == '\u{2029}' || c == '\u{202f}' || c == '\u{205f}' || c == '\u{3000}'
}

/// Whether `s` holds nothing but white space.
pub fn is_blank(s: &str) -> (r: bool)
    ensures
        r == blank(s@),
{
    let n = s.unicode_len();
    let mut i: usize = 0;
    while i < n
        invariant
            n == s@.len(),
            i <= n,
            forall|j: int| 0 <= j < i ==> is_white(#[trigger] s@[j]),
        decreases n - i,
    {
        if !white(s.get_char(i)) {
            return false;
        }
        i = i + 1;
    }
    true
}

/// The search that a keyword names, if any.
pub open spec fn search_kind(w: Seq<char>) -> Option<PredicateKind> {
    if w == "allbut"@ {
        Some(PredicateKind::AllBut)
    } else if w == "exact"@ {
        Some(PredicateKind::Exact)
    } else if w == "and"@ {
        Some(PredicateKind::And)
    } else if w == "or"@ {
        Some(PredicateKind::Or)
    } else {
        None
    }
}

/// What the text of a message asks of the bot.
pub open spec fn command_of(s: Seq<char>) -> Result<CommandView, CommandError> {
    let t = tokens(s);
    if t[0] != bot_prefix() {
        Ok(CommandView::Unaddressed)
    } else if t.len() < 2 {
        Err(CommandError::UnrecognizedCommand)
    } else if t[1] == "ping"@ {
        Ok(CommandView::Ping)
    } else if t[1] == "help"@ {
        Ok(CommandView::Help)
    } else {
        match search_kind(t[1]) {
            None => Err(CommandError::UnrecognizedCommand),
            Some(k) => if t.len() < 3 || blank(t[2]) {
                Err(CommandError::MissingArgument)
            } else {
                Ok(CommandView::Search(k, t[2]))
            },
        }
    }
}

/// Splits `s` at its first space.
fn split_at_space(s: &str) -> (r: (String, Option<String>))
    ensures
        r.0@ == split_first(s@).0,
        r.1.is_some() == split_first(s@).1.is_some(),
        r.1.is_some() ==> r.1.unwrap()@ == split_first(s@).1.unwrap(),
{
    let n = s.unicode_len();
    let mut i: usize = 0;
    while i < n
        invariant
            n == s@.len(),
            i <= n,
            forall|j: int| 0 <= j < i ==> s@[j] != ' ',
        decreases n - i,
    {
        if s.get_char(i) == ' ' {
            assert(is_first_space(s@, i as int));
            assert forall|x: int| is_first_space(s@, x) implies x == i by {
                if x < i {
                    assert(s@[x] != ' ');
                }
                if i < x {
                    assert(s@[i as int] != ' ');
                }
            }
            let head = String::from_str(s.substring_char(0, i));
            let tail = String::from_str(s.substring_char(i + 1, n));
            return (head, Some(tail));
        }
        i = i + 1;
    }
    assert(!exists|x: int| is_first_space(s@, x));
    (String::from_str(s), None)
}

fn same_text(a: &String, b: &str) -> (r: bool)
    ensures
        r == (a@ == b@),
{
    let b = String::from_str(b);
    *a == b
}

/// Reads what the text of a message asks of the bot.
///
/// A search keyword with no argument, or one of white space alone, is refused rather than
/// searched for.
pub fn parse_command(text: &str) -> (r: Result<Command, CommandError>)
    ensures
        match r {
            Ok(c) => command_of(text@) == Ok::<CommandView, CommandError>(c@),
            Err(e) => command_of(text@) == Err::<CommandView, CommandError>(e),
        },
{
    let ghost t = tokens(text@);
    let (prefix, rest) = split_at_space(text);
    if !same_text(&prefix, "/s") {
        return Ok(Command::Unaddressed);
    }
    let rest = match rest {
        None => {
            return Err(CommandError::UnrecognizedCommand);
        },
        Some(rest) => rest,
    };
    let (keyword, argument) = split_at_space(rest.as_str());
    assert(t[1] == keyword@);
    if same_text(&keyword, "ping") {
        return Ok(Command::Ping);
    }
    if same_text(&keyword, "help") {
        return Ok(Command::Help);
    }
    let kind = if same_text(&keyword, "allbut") {
        PredicateKind::AllBut
    } else if same_text(&keyword, "exact") {
        PredicateKind::Exact
    } else if same_text(&keyword, "and") {
        PredicateKind::And
    } else if same_text(&keyword, "or") {
        PredicateKind::Or
    } else {
        return Err(CommandError::UnrecognizedCommand);
    };
    match argument {
        None => Err(CommandError::MissingArgument),
        Some(argument) => {
            if is_blank(argument.as_str()) {
                Err(CommandError::MissingArgument)
            } else {
                Ok(Command::Search(kind, argument))
            }
        },
    }
}

/// One search to run: where, from which message back, and what to look for.
pub struct SearchRequest {
    pub channel: u64,
    pub trigger: u64,
    pub kind: PredicateKind,
    pub argument: String,
}

impl SearchRequest {
    pub fn new(channel: u64, trigger: u64, kind: PredicateKind, argument: String) -> (r:
        SearchRequest)
        ensures
            r.channel == channel,
            r.trigger == trigger,
            r.kind == kind,
            r.argument@ == argument@,
    {
        SearchRequest { channel, trigger, kind, argument }
    }

    /// The predicate that this request applies.
    pub fn matcher(&self) -> (r: Matcher)
        ensures
            r.wf(),
            r.kind == self.kind,
            r.argument@ == self.argument@,
    {
        Matcher::new(self.kind, self.argument.clone())
    }
}

} // verus!
