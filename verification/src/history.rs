//! The history of entered lines and the motion through it.
//!
//! Reading and writing the history file is the caller's part; the history
//! turns the text of the file into entries and back.

use crate::sse::{decode_lossy, line_views, lines_of, split_lines, utf8_lossy};
use crate::text::{str_eq, trim, trimmed};
use vstd::prelude::*;
use vstd::slice::*;
use vstd::string::*;

verus! {

/// The largest number of entries that a history keeps.
pub const MAX_ENTRIES: usize = 1000;

/// The entered lines, oldest first, and the state of the motion through
/// them: the entry shown, if the user moves through the history, and the
/// input that was on the line when the motion began.
#[derive(Debug)]
pub struct History {
    entries: Vec<String>,
    path: String,
    nav_index: Option<usize>,
    stash: String,
}

/// The mathematical content of a `History`.
pub struct HistoryView {
    pub entries: Seq<Seq<char>>,
    pub nav: Option<int>,
    pub stash: Seq<char>,
}

/// The views of a list of entries.
pub open spec fn entry_texts(entries: Seq<String>) -> Seq<Seq<char>> {
    entries.map_values(|s: String| s@)
}

/// The entries after `line` has been entered: white space around it is
/// dropped; an empty line and a repetition of the newest entry add
/// nothing; when the history is full its oldest entry makes room.
pub open spec fn added(entries: Seq<Seq<char>>, line: Seq<char>) -> Seq<Seq<char>> {
    let entry = trimmed(line);
    if entry.len() == 0 || (entries.len() > 0 && entries.last() == entry) {
        entries
    } else if entries.len() + 1 > MAX_ENTRIES {
        entries.push(entry).drop_first()
    } else {
        entries.push(entry)
    }
}

/// The lines among the first `n` of `lines` that are not empty, decoded.
pub open spec fn kept_lines(lines: Seq<Seq<u8>>, n: int) -> Seq<Seq<char>>
    decreases n,
{
    if n <= 0 {
        Seq::empty()
    } else if lines[n - 1].len() == 0 {
        kept_lines(lines, n - 1)
    } else {
        kept_lines(lines, n - 1).push(utf8_lossy(lines[n - 1]))
    }
}

/// The last `MAX_ENTRIES` of `entries`.
pub open spec fn newest(entries: Seq<Seq<char>>) -> Seq<Seq<char>> {
    if entries.len() > MAX_ENTRIES {
        entries.subrange(entries.len() - MAX_ENTRIES, entries.len() as int)
    } else {
        entries
    }
}

/// The entries that the text of a history file holds: its lines that are
/// not empty, the newest `MAX_ENTRIES` of them.
pub open spec fn file_entries(content: Seq<u8>) -> Seq<Seq<char>> {
    let lines = lines_of(content);
    newest(kept_lines(lines, lines.len() as int))
}

/// The text of the history file: each entry followed by a line feed.
pub open spec fn file_text(entries: Seq<Seq<char>>) -> Seq<char>
    decreases entries.len(),
{
    if entries.len() == 0 {
        Seq::empty()
    } else {
        file_text(entries.drop_last()) + entries.last() + seq!['\n']
    }
}

impl View for History {
    type V = HistoryView;

    closed spec fn view(&self) -> HistoryView {
        HistoryView {
            entries: entry_texts(self.entries@),
            nav: match self.nav_index {
                Some(i) => Some(i as int),
                None => None,
            },
            stash: self.stash@,
        }
    }
}

impl History {
    /// The history keeps at most `MAX_ENTRIES` entries, and the entry
    /// shown, if any, is one of them.
    pub open spec fn wf(&self) -> bool {
        &&& self@.entries.len() <= MAX_ENTRIES
        &&& match self@.nav {
            Some(i) => 0 <= i < self@.entries.len(),
            None => true,
        }
    }

    /// The path of the file that the history is kept in.
    pub closed spec fn file_path(&self) -> Seq<char> {
        self.path@
    }

    /// An empty history that is kept in the file at `path`.
    pub fn new(path: &str) -> (h: Self)
        ensures
            h.wf(),
            h@.entries == Seq::<Seq<char>>::empty(),
            h@.nav is None,
            h@.stash == Seq::<char>::empty(),
            h.file_path() == path@,
    {
        let h = History {
            entries: Vec::new(),
            path: path.to_owned(),
            nav_index: None,
            stash: String::new(),
        };
        assert(h@.entries =~= Seq::<Seq<char>>::empty());
        h
    }

    /// The path of the file that the history is kept in.
    pub fn path(&self) -> (p: &str)
        ensures
            p@ == self.file_path(),
    {
        self.path.as_str()
    }

    /// Replaces the entries by those that the text of a history file holds.
    pub fn load_from(&mut self, content: &[u8])
        ensures
            final(self)@.entries == file_entries(content@),
            final(self)@.nav is None,
            final(self)@.stash == old(self)@.stash,
            final(self).file_path() == old(self).file_path(),
            final(self).wf(),
    {
        let lines = split_lines(content);
        let ghost all = lines_of(content@);
        let mut kept: Vec<String> = Vec::new();
        let mut i: usize = 0;
        assert(entry_texts(kept@) =~= kept_lines(all, 0));
        while i < lines.len()
            invariant
                i <= lines@.len(),
                all == line_views(lines@),
                entry_texts(kept@) == kept_lines(all, i as int),
            decreases lines.len() - i,
        {
            assert(all[i as int] == lines@[i as int]@);
            if lines[i].len() > 0 {
                let ghost before = entry_texts(kept@);
                let entry = decode_lossy(lines[i].as_slice());
                kept.push(entry);
                assert(entry_texts(kept@) =~= before.push(entry@));
            }
            i += 1;
        }
        let n: usize = kept.len();
        if n > MAX_ENTRIES {
            let ghost before = entry_texts(kept@);
            let tail = kept.split_off(n - MAX_ENTRIES);
            assert(entry_texts(tail@) =~= before.subrange(n - MAX_ENTRIES, n as int));
            kept = tail;
        }
        self.nav_index = None;
        self.entries = kept;
    }

    /// The text to write to the history file.
    pub fn file_content(&self) -> (text: String)
        ensures
            text@ == file_text(self@.entries),
    {
        let mut text = String::new();
        let mut i: usize = 0;
        let ghost all = entry_texts(self.entries@);
        assert(all.subrange(0, 0) =~= Seq::<Seq<char>>::empty());
        while i < self.entries.len()
            invariant
                i <= self.entries@.len(),
                all == entry_texts(self.entries@),
                text@ == file_text(all.subrange(0, i as int)),
            decreases self.entries.len() - i,
        {
            assert(all.subrange(0, i + 1).drop_last() =~= all.subrange(0, i as int));
            assert(all.subrange(0, i + 1).last() == self.entries@[i as int]@);
            text.append(self.entries[i].as_str());
            text.append("\n");
            proof {
                reveal_strlit("\n");
                assert("\n"@ =~= seq!['\n']);
            }
            i += 1;
        }
        assert(all.subrange(0, self.entries@.len() as int) =~= all);
        text
    }

    /// Adds an entered line to the history.
    pub fn add(&mut self, line: &str)
        requires
            old(self).wf(),
        ensures
            final(self).wf(),
            final(self)@.entries == added(old(self)@.entries, line@),
            final(self)@.nav == old(self)@.nav,
            final(self)@.stash == old(self)@.stash,
            final(self).file_path() == old(self).file_path(),
    {
        let entry = trim(line);
        if entry.as_str().is_empty() {
            return ;
        }
        let n: usize = self.entries.len();
        assert(n > 0 ==> self@.entries.last() == self.entries@[n - 1]@);
        if n > 0 && str_eq(self.entries[n - 1].as_str(), entry.as_str()) {
            return ;
        }
        let ghost before = self@.entries;
        self.entries.push(entry);
        assert(entry_texts(self.entries@) =~= before.push(entry@));
        if self.entries.len() > MAX_ENTRIES {
            self.entries.remove(0);
            assert(entry_texts(self.entries@) =~= before.push(entry@).drop_first());
        }
    }

    /// Moves to the entry before the one shown, or to the newest entry
    /// when the motion begins, in which case `current_input` is put aside.
    /// Gives none, and changes nothing, when there is no older entry.
    pub fn navigate_up(&mut self, current_input: &str) -> (r: Option<String>)
        requires
            old(self).wf(),
        ensures
            final(self).wf(),
            final(self)@.entries == old(self)@.entries,
            final(self).file_path() == old(self).file_path(),
            match old(self)@.nav {
                None => if old(self)@.entries.len() == 0 {
                    r is None && final(self)@ == old(self)@
                } else {
                    final(self)@.nav == Some(old(self)@.entries.len() - 1) && final(self)@.stash
                        == current_input@ && (r matches Some(e) && e@ == old(
                        self,
                    )@.entries.last())
                },
                Some(i) => if i == 0 {
                    r is None && final(self)@ == old(self)@
                } else {
                    final(self)@.nav == Some(i - 1) && final(self)@.stash == old(self)@.stash && (
                    r matches Some(e) && e@ == old(self)@.entries[i - 1])
                },
            },
    {
        if self.entries.len() == 0 {
            return None;
        }
        let index: usize = match self.nav_index {
            None => {
                self.stash = current_input.to_owned();
                self.entries.len() - 1
            },
            Some(i) => {
                if i == 0 {
                    return None;
                }
                i - 1
            },
        };
        self.nav_index = Some(index);
        assert(self@.entries[index as int] == self.entries@[index as int]@);
        Some(self.entries[index].clone())
    }

    /// Moves to the entry after the one shown. Past the newest entry the
    /// motion ends and the input that was put aside comes back. Gives none
    /// when no motion is under way.
    pub fn navigate_down(&mut self) -> (r: Option<String>)
        requires
            old(self).wf(),
        ensures
            final(self).wf(),
            final(self)@.entries == old(self)@.entries,
            final(self)@.stash == old(self)@.stash,
            final(self).file_path() == old(self).file_path(),
            match old(self)@.nav {
                None => r is None && final(self)@.nav is None,
                Some(i) => if i + 1 < old(self)@.entries.len() {
                    final(self)@.nav == Some(i + 1) && (r matches Some(e) && e@ == old(
                        self,
                    )@.entries[i + 1])
                } else {
                    final(self)@.nav is None && (r matches Some(e) && e@ == old(self)@.stash)
                },
            },
    {
        match self.nav_index {
            None => None,
            Some(i) => {
                let n: usize = self.entries.len();
                if i < n && i + 1 < n {
                    self.nav_index = Some(i + 1);
                    assert(self@.entries[i + 1] == self.entries@[i + 1]@);
                    Some(self.entries[i + 1].clone())
                } else {
                    self.nav_index = None;
                    Some(self.stash.clone())
                }
            },
        }
    }

    /// Ends the motion through the history and forgets the input that was
    /// put aside.
    pub fn reset_navigation(&mut self)
        requires
            old(self).wf(),
        ensures
            final(self).wf(),
            final(self)@.entries == old(self)@.entries,
            final(self)@.nav is None,
            final(self)@.stash == Seq::<char>::empty(),
            final(self).file_path() == old(self).file_path(),
    {
        self.nav_index = None;
        self.stash = String::new();
    }

    /// The number of entries.
    pub fn len(&self) -> (n: usize)
        ensures
            n == self@.entries.len(),
    {
        self.entries.len()
    }

    /// True when the history holds no entry.
    pub fn is_empty(&self) -> (e: bool)
        ensures
            e == (self@.entries.len() == 0),
    {
        self.entries.len() == 0
    }

    /// The entry at `index`, counted from the oldest.
    pub fn entry(&self, index: usize) -> (e: &str)
        requires
            index < self@.entries.len(),
        ensures
            e@ == self@.entries[index as int],
    {
        assert(self@.entries[index as int] == self.entries@[index as int]@);
        self.entries[index].as_str()
    }
}

} // verus!
