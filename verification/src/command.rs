//! The command line of the game: what a line of text asks for.
//!
//! A command starts with a colon and a letter: `:q` quits, `:d` deletes,
//! `:p` places a node. The node to place follows a semicolon: its kind and,
//! for some kinds, an argument in round brackets, as in `:p;i(1)`,
//! `:p;c1(2)` or `:p;p(lr)`.

use vstd::prelude::*;
use vstd::string::{StrSliceExecFns, StringExecFns};

use crate::nodes::{Node, PIPE_DR, PIPE_LD, PIPE_LR, PIPE_LU, PIPE_UR};
use crate::resipee::{EngineError, Ingredient};

verus! {

/// What a line of text asks for.
#[derive(Copy, Clone, Debug)]
pub enum Command {
    /// Leave the game.
    Quit,
    /// Place this node where the player then points.
    Place(Node),
    /// Delete the node where the player then points.
    Delete,
    /// The line asks for nothing.
    Ignored,
}

/// The groups that the first match of a pattern in a text captures, each
/// with the text it matched or none where it took no part in the match;
/// none at all where the pattern is no regular expression or matches
/// nowhere in the text.
pub uninterp spec fn first_captures(pattern: Seq<char>, text: Seq<char>) -> Option<
    Seq<Option<Seq<char>>>,
>;

/// The captured groups as sequences of characters.
pub open spec fn groups_view(groups: Option<Vec<Option<String>>>) -> Option<
    Seq<Option<Seq<char>>>,
> {
    match groups {
        Some(v) => Some(
            Seq::new(
                v@.len(),
                |i: int|
                    match v@[i] {
                        Some(s) => Some(s@),
                        None => None,
                    },
            ),
        ),
        None => None,
    }
}

/// Runs `regex::Regex::new` on the pattern and `Regex::captures` on the
/// text, and hands out each group of the match by `Captures::get` and
/// `Match::as_str`. The contract only names the result: it is what the
/// regex crate finds, a function of the pattern and the text, and nothing
/// is proved of it.
#[verifier::external_body]
fn regex_captures(pattern: &str, text: &str) -> (groups: Option<Vec<Option<String>>>)
    ensures
        groups_view(groups) == first_captures(pattern@, text@),
{
    let re = regex::Regex::new(pattern).ok()?;
    let caps = re.captures(text)?;
    Some((0..caps.len()).map(|i| caps.get(i).map(|m| m.as_str().to_string())).collect())
}

/// The pattern of a placement: a semicolon, a word for the kind of node
/// and, if it has one, an argument of one or two letters or digits in round
/// brackets.
pub open spec fn placement_pattern() -> Seq<char> {
    r";(\w+)(\((\w{1,2})\))?"@
}

/// Whether a character is one of the digits 0 to 9.
pub open spec fn is_digit(c: char) -> bool {
    48 <= c as u32 <= 57
}

/// The number that one or two digits write; none for any other text.
pub open spec fn small_number(s: Seq<char>) -> Option<int> {
    if s.len() == 1 && is_digit(s[0]) {
        Some(s[0] as u32 - 48)
    } else if s.len() == 2 && is_digit(s[0]) && is_digit(s[1]) {
        Some((s[0] as u32 - 48) * 10 + (s[1] as u32 - 48))
    } else {
        None
    }
}

/// The number that an argument writes, if there is an argument and it
/// writes one.
pub open spec fn number_of(arg: Option<Seq<char>>) -> Option<int> {
    match arg {
        Some(s) => small_number(s),
        None => None,
    }
}

/// The orientation that an argument names, if it names one.
pub open spec fn way_of(arg: Option<Seq<char>>) -> Option<u8> {
    if arg == Some("lr"@) {
        Some(PIPE_LR)
    } else if arg == Some("lu"@) {
        Some(PIPE_LU)
    } else if arg == Some("ld"@) {
        Some(PIPE_LD)
    } else if arg == Some("dr"@) {
        Some(PIPE_DR)
    } else if arg == Some("ur"@) {
        Some(PIPE_UR)
    } else {
        None
    }
}

/// The tier that an argument names: 1 and 2 name the tiers 0 and 1.
pub open spec fn tier_of(arg: Option<Seq<char>>) -> Option<u8> {
    match number_of(arg) {
        Some(v) => if 0 < v < 3 {
            Some((v - 1) as u8)
        } else {
            None
        },
        None => None,
    }
}

/// What a placement of the given kind and argument asks for.
///
/// `i` with the code of an ingredient is an input of it, and a code that
/// names no ingredient is an error; `o` is an output; `P` with `l` or `r`
/// is a power node; `c1` and `c2` with 1 or 2 are the combiners at tier 0
/// or 1; `s` is a split, `m` a merge; `p` with an orientation is a pipe.
/// Anything else asks for nothing.
pub open spec fn placement(kind: Seq<char>, arg: Option<Seq<char>>) -> Result<
    Command,
    EngineError,
> {
    let nothing = Ingredient::Nothing;
    if kind == "i"@ {
        match number_of(arg) {
            Some(v) => match Ingredient::of_code(v as u16) {
                Some(i) => Ok(Command::Place(Node::In(i))),
                None => Err(EngineError::InvalidIngredientCode),
            },
            None => Ok(Command::Ignored),
        }
    } else if kind == "o"@ {
        Ok(Command::Place(Node::Out(nothing)))
    } else if kind == "P"@ {
        if arg == Some("l"@) {
            Ok(Command::Place(Node::PowerLeft))
        } else if arg == Some("r"@) {
            Ok(Command::Place(Node::PowerRight))
        } else {
            Ok(Command::Ignored)
        }
    } else if kind == "c1"@ {
        match tier_of(arg) {
            Some(tier) => Ok(Command::Place(Node::Comb1(nothing, nothing, nothing, tier))),
            None => Ok(Command::Ignored),
        }
    } else if kind == "c2"@ {
        match tier_of(arg) {
            Some(tier) => Ok(Command::Place(Node::Comb2(nothing, nothing, nothing, tier))),
            None => Ok(Command::Ignored),
        }
    } else if kind == "s"@ {
        Ok(Command::Place(Node::Split(nothing, false)))
    } else if kind == "m"@ {
        Ok(Command::Place(Node::Merge(nothing, false)))
    } else if kind == "p"@ {
        match way_of(arg) {
            Some(way) => Ok(Command::Place(Node::Pipe(nothing, way))),
            None => Ok(Command::Ignored),
        }
    } else {
        Ok(Command::Ignored)
    }
}

/// What a line asks for, given the groups that the placement pattern
/// captures in it: the first group is the kind of node, the third the
/// argument.
pub open spec fn command_of(text: Seq<char>, groups: Option<Seq<Option<Seq<char>>>>) -> Result<
    Command,
    EngineError,
> {
    if text.len() < 2 || text[0] != ':' {
        Ok(Command::Ignored)
    } else if text[1] == 'q' {
        Ok(Command::Quit)
    } else if text[1] == 'd' {
        Ok(Command::Delete)
    } else if text[1] == 'p' {
        match groups {
            Some(g) => if g.len() >= 4 && g[1] is Some {
                placement(g[1]->0, g[3])
            } else {
                Ok(Command::Ignored)
            },
            None => Ok(Command::Ignored),
        }
    } else {
        Ok(Command::Ignored)
    }
}

/// Whether a text is a given word.
fn is_word(s: &String, word: &str) -> (same: bool)
    ensures
        same == (s@ == word@),
{
    let w = String::from_str(word);
    *s == w
}

/// Whether an argument is there and is a given word.
fn arg_is(arg: &Option<String>, word: &str) -> (same: bool)
    ensures
        same == (match *arg {
            Some(s) => s@ == word@,
            None => false,
        }),
{
    match arg {
        Some(s) => is_word(s, word),
        None => false,
    }
}

/// Reads the number that one or two digits write.
pub fn read_small_number(s: &str) -> (n: Option<u8>)
    ensures
        match small_number(s@) {
            Some(v) => n == Some(v as u8) && v <= 99,
            None => n is None,
        },
{
    let len = s.unicode_len();
    if len == 1 {
        let a = s.get_char(0) as u32;
        if 48 <= a && a <= 57 {
            Some((a - 48) as u8)
        } else {
            None
        }
    } else if len == 2 {
        let a = s.get_char(0) as u32;
        let b = s.get_char(1) as u32;
        if 48 <= a && a <= 57 && 48 <= b && b <= 57 {
            Some(((a - 48) * 10 + (b - 48)) as u8)
        } else {
            None
        }
    } else {
        None
    }
}

/// Reads the number that an argument writes.
fn read_number(arg: &Option<String>) -> (n: Option<u8>)
    ensures
        match number_of(
            match *arg {
                Some(s) => Some(s@),
                None => None,
            },
        ) {
            Some(v) => n == Some(v as u8) && v <= 99,
            None => n is None,
        },
{
    match arg {
        Some(s) => read_small_number(s.as_str()),
        None => None,
    }
}

/// The argument as a sequence of characters.
pub open spec fn arg_view(arg: Option<String>) -> Option<Seq<char>> {
    match arg {
        Some(s) => Some(s@),
        None => None,
    }
}

/// Reads the tier that an argument names.
fn read_tier(arg: &Option<String>) -> (tier: Option<u8>)
    ensures
        tier == tier_of(arg_view(*arg)),
{
    match read_number(arg) {
        Some(v) => if 0 < v && v < 3 {
            Some(v - 1)
        } else {
            None
        },
        None => None,
    }
}

/// Reads the orientation that an argument names.
fn read_way(arg: &Option<String>) -> (way: Option<u8>)
    ensures
        way == way_of(arg_view(*arg)),
{
    if arg_is(arg, "lr") {
        Some(PIPE_LR)
    } else if arg_is(arg, "lu") {
        Some(PIPE_LU)
    } else if arg_is(arg, "ld") {
        Some(PIPE_LD)
    } else if arg_is(arg, "dr") {
        Some(PIPE_DR)
    } else if arg_is(arg, "ur") {
        Some(PIPE_UR)
    } else {
        None
    }
}

/// Tells what a placement of the given kind and argument asks for.
pub fn read_placement(kind: &String, arg: &Option<String>) -> (r: Result<Command, EngineError>)
    ensures
        r == placement(kind@, arg_view(*arg)),
        r matches Ok(Command::Place(node)) ==> node.wf(),
{
    let nothing = Ingredient::Nothing;
    if is_word(kind, "i") {
        match read_number(arg) {
            Some(v) => match Ingredient::u16_to_ing(v as u16) {
                Ok(i) => Ok(Command::Place(Node::In(i))),
                Err(e) => Err(e),
            },
            None => Ok(Command::Ignored),
        }
    } else if is_word(kind, "o") {
        Ok(Command::Place(Node::Out(nothing)))
    } else if is_word(kind, "P") {
        if arg_is(arg, "l") {
            Ok(Command::Place(Node::PowerLeft))
        } else if arg_is(arg, "r") {
            Ok(Command::Place(Node::PowerRight))
        } else {
            Ok(Command::Ignored)
        }
    } else if is_word(kind, "c1") {
        match read_tier(arg) {
            Some(tier) => Ok(Command::Place(Node::Comb1(nothing, nothing, nothing, tier))),
            None => Ok(Command::Ignored),
        }
    } else if is_word(kind, "c2") {
        match read_tier(arg) {
            Some(tier) => Ok(Command::Place(Node::Comb2(nothing, nothing, nothing, tier))),
            None => Ok(Command::Ignored),
        }
    } else if is_word(kind, "s") {
        Ok(Command::Place(Node::Split(nothing, false)))
    } else if is_word(kind, "m") {
        Ok(Command::Place(Node::Merge(nothing, false)))
    } else if is_word(kind, "p") {
        match read_way(arg) {
            Some(way) => Ok(Command::Place(Node::Pipe(nothing, way))),
            None => Ok(Command::Ignored),
        }
    } else {
        Ok(Command::Ignored)
    }
}

/// Tells what a line asks for, given the groups that the placement
/// pattern captures in it.
pub fn command_from_captures(text: &str, groups: &Option<Vec<Option<String>>>) -> (r: Result<
    Command,
    EngineError,
>)
    ensures
        r == command_of(text@, groups_view(*groups)),
        r matches Ok(Command::Place(node)) ==> node.wf(),
{
    if text.unicode_len() < 2 || text.get_char(0) != ':' {
        return Ok(Command::Ignored);
    }
    let op = text.get_char(1);
    if op == 'q' {
        Ok(Command::Quit)
    } else if op == 'd' {
        Ok(Command::Delete)
    } else if op == 'p' {
        match groups {
            Some(g) => {
                if g.len() >= 4 {
                    assert(arg_view(g@[3]) == groups_view(*groups)->0[3]);
                    match &g[1] {
                        Some(kind) => read_placement(kind, &g[3]),
                        None => Ok(Command::Ignored),
                    }
                } else {
                    Ok(Command::Ignored)
                }
            },
            None => Ok(Command::Ignored),
        }
    } else {
        Ok(Command::Ignored)
    }
}

/// Tells what a line of text asks for.
///
/// The kind of node and its argument are what the regex crate finds for
/// the placement pattern in the line.
pub fn parse_command(text: &str) -> (r: Result<Command, EngineError>)
    ensures
        r == command_of(text@, first_captures(placement_pattern(), text@)),
        r matches Ok(Command::Place(node)) ==> node.wf(),
{
    let groups = regex_captures(r";(\w+)(\((\w{1,2})\))?", text);
    command_from_captures(text, &groups)
}

} // verus!
