//! Reading of simple shell commands.

use crate::completion::{contains_char, starts_with};
use crate::text::{chars_of, has_prefix, string_from_chars, trim, trimmed};
use vstd::prelude::*;
use vstd::slice::*;
use vstd::string::*;

verus! {

/// True when `target` holds a character that chains or pipes commands.
pub open spec fn chains_commands(target: Seq<char>) -> bool {
    target.contains('&') || target.contains(';') || target.contains('|')
}

/// The directory that a simple `cd` command changes to: the command,
/// without the white space around it, is `cd`, a space, and a target that
/// neither chains nor pipes commands. A bare `cd` and every other command
/// name no directory.
pub open spec fn cd_target(command: Seq<char>) -> Option<Seq<char>> {
    let line = trimmed(command);
    if has_prefix(line, seq!['c', 'd', ' ']) {
        let target = trimmed(line.subrange(3, line.len() as int));
        if chains_commands(target) {
            None
        } else {
            Some(target)
        }
    } else {
        None
    }
}

/// Extracts the target directory from a simple `cd` command.
pub fn extract_cd_target(command: &str) -> (r: Option<String>)
    ensures
        match r {
            Some(target) => cd_target(command@) == Some(target@),
            None => cd_target(command@) is None,
        },
{
    let line = trim(command);
    let letters = chars_of(line.as_str());
    let mut prefix: Vec<char> = Vec::new();
    prefix.push('c');
    prefix.push('d');
    prefix.push(' ');
    assert(prefix@ =~= seq!['c', 'd', ' ']);
    if !starts_with(&letters, &prefix) {
        return None;
    }
    let rest = string_from_chars(slice_subrange(letters.as_slice(), 3, letters.len()));
    let target = trim(rest.as_str());
    let found = chars_of(target.as_str());
    if contains_char(&found, '&') || contains_char(&found, ';') || contains_char(&found, '|') {
        None
    } else {
        Some(target)
    }
}

/// A rough count of the tokens of a text of `bytes` bytes: a quarter of
/// the bytes, rounded up.
pub open spec fn token_estimate(bytes: nat) -> nat {
    (bytes + 3) / 4
}

/// Estimates the tokens of a text.
pub fn estimate_text_tokens(text: &str) -> (n: u64)
    ensures
        n == token_estimate(text.spec_bytes().len()),
{
    let len: usize = crate::util::byte_len(text);
    let quarters: u64 = (len / 4) as u64;
    if len % 4 == 0 {
        quarters
    } else {
        quarters + 1
    }
}

} // verus!
