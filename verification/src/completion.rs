//! Completion of slash commands.

use crate::text::{chars_of, has_prefix, trim, trimmed};
use vstd::prelude::*;
use vstd::string::*;

verus! {

/// A source of completions for the line under edit.
pub trait Completer {
    /// The lines that could replace `line`, with the cursor at `cursor`.
    fn complete(&self, line: &str, cursor: usize) -> Vec<String>;
}

/// Completes a slash command from its first characters.
#[derive(Debug)]
pub struct SlashCommandCompleter {
    commands: Vec<String>,
}

/// The views of a list of commands.
pub open spec fn command_texts(commands: Seq<String>) -> Seq<Seq<char>> {
    commands.map_values(|s: String| s@)
}

/// True when `word` is a slash command without arguments that may be
/// completed: it begins with a slash and holds no space.
pub open spec fn completable(word: Seq<char>) -> bool {
    word.len() > 0 && word[0] == '/' && !word.contains(' ')
}

/// The commands among the first `n` that begin with `word` and are longer
/// than it, in the order of the list.
pub open spec fn longer_commands(commands: Seq<Seq<char>>, word: Seq<char>, n: int) -> Seq<
    Seq<char>,
>
    decreases n,
{
    if n <= 0 {
        Seq::empty()
    } else if has_prefix(commands[n - 1], word) && commands[n - 1] != word {
        longer_commands(commands, word, n - 1).push(commands[n - 1])
    } else {
        longer_commands(commands, word, n - 1)
    }
}

/// The completions of `line`: none unless the line, without the white
/// space around it, is a slash command without arguments; else the known
/// commands that begin with it and differ from it.
pub open spec fn completions(commands: Seq<Seq<char>>, line: Seq<char>) -> Seq<Seq<char>> {
    let word = trimmed(line);
    if completable(word) {
        longer_commands(commands, word, commands.len() as int)
    } else {
        Seq::empty()
    }
}

/// True when `text` begins with `prefix`.
pub fn starts_with(text: &Vec<char>, prefix: &Vec<char>) -> (r: bool)
    ensures
        r == has_prefix(text@, prefix@),
{
    if prefix.len() > text.len() {
        return false;
    }
    let n: usize = prefix.len();
    let mut i: usize = 0;
    while i < n
        invariant
            i <= n,
            n == prefix@.len(),
            n <= text@.len(),
            forall|k: int| 0 <= k < i ==> text@[k] == prefix@[k],
        decreases n - i,
    {
        if text[i] != prefix[i] {
            assert(text@.subrange(0, n as int)[i as int] != prefix@[i as int]);
            return false;
        }
        i += 1;
    }
    assert(text@.subrange(0, n as int) =~= prefix@);
    true
}

/// True when `text` holds the character `c`.
pub fn contains_char(text: &Vec<char>, c: char) -> (r: bool)
    ensures
        r == text@.contains(c),
{
    let mut i: usize = 0;
    while i < text.len()
        invariant
            i <= text@.len(),
            forall|k: int| 0 <= k < i ==> text@[k] != c,
        decreases text.len() - i,
    {
        if text[i] == c {
            return true;
        }
        i += 1;
    }
    false
}

impl SlashCommandCompleter {
    /// The commands that the completer knows, in order.
    pub closed spec fn commands(&self) -> Seq<Seq<char>> {
        command_texts(self.commands@)
    }

    /// A completer for the given commands.
    pub fn new(commands: Vec<&str>) -> (c: Self)
        ensures
            c.commands().len() == commands@.len(),
            forall|i: int| 0 <= i < commands@.len() ==> c.commands()[i] == commands@[i]@,
    {
        let mut owned: Vec<String> = Vec::new();
        let mut i: usize = 0;
        while i < commands.len()
            invariant
                i <= commands@.len(),
                owned@.len() == i,
                forall|k: int| 0 <= k < i ==> owned@[k]@ == commands@[k]@,
            decreases commands.len() - i,
        {
            owned.push(commands[i].to_owned());
            i += 1;
        }
        SlashCommandCompleter { commands: owned }
    }

    /// The completions of `line`.
    pub fn completions_of(&self, line: &str) -> (r: Vec<String>)
        ensures
            command_texts(r@) == completions(self.commands(), line@),
    {
        let word = trim(line);
        let letters = chars_of(word.as_str());
        let mut found: Vec<String> = Vec::new();
        assert(command_texts(found@) =~= Seq::<Seq<char>>::empty());
        if letters.len() == 0 || letters[0] != '/' || contains_char(&letters, ' ') {
            return found;
        }
        let mut i: usize = 0;
        while i < self.commands.len()
            invariant
                i <= self.commands@.len(),
                letters@ == trimmed(line@),
                command_texts(found@) == longer_commands(self.commands(), letters@, i as int),
            decreases self.commands.len() - i,
        {
            assert(self.commands()[i as int] == self.commands@[i as int]@);
            let command = chars_of(self.commands[i].as_str());
            if starts_with(&command, &letters) && command.len() != letters.len() {
                let ghost before = command_texts(found@);
                found.push(self.commands[i].clone());
                assert(command_texts(found@) =~= before.push(self.commands@[i as int]@));
            } else {
                proof {
                    if has_prefix(command@, letters@) {
                        assert(command@.subrange(0, letters@.len() as int) =~= command@);
                    }
                }
            }
            i += 1;
        }
        found
    }
}

impl Completer for SlashCommandCompleter {
    fn complete(&self, line: &str, cursor: usize) -> (r: Vec<String>)
        ensures
            command_texts(r@) == completions(self.commands(), line@),
    {
        self.completions_of(line)
    }
}

} // verus!
