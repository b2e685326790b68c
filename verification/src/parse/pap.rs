//! The command to run with a saved path spliced in, and how the interactive
//! picker moves through the command's words and the saved paths.
use vstd::prelude::*;

verus! {

/// A command to run with a saved path inserted among its words.
#[derive(Debug)]
pub struct ExtCmd {
    /// The index of the saved path to insert.
    pub id: usize,
    /// The command and its arguments.
    pub cmd_args: Vec<String>,
    /// The position among the words at which the path goes.
    pub cur_pos: usize,
    /// The number of words.
    pub nargs: usize,
}

/// A choice made in the interactive picker.
#[derive(Debug, Clone, Copy, PartialEq, Eq)]
pub enum Selection {
    /// Run the command as shown.
    Accept,
    /// Give up.
    Cancel,
    /// Move the path one word to the left (from the front to the end).
    Left,
    /// Move the path one word to the right (from the end to the front).
    Right,
    /// Take the next saved path (from the last to the first).
    Up,
    /// Take the previous saved path (from the first to the last).
    Down,
}

/// A key as the picker sees it.
#[derive(Debug, Clone, Copy, PartialEq, Eq)]
pub enum Key {
    Enter,
    Left,
    Right,
    Up,
    Down,
    /// A character key.
    Char(char),
    /// Any other key.
    Other,
}

/// What the picker does after a choice.
#[derive(Debug, Clone, Copy, PartialEq, Eq)]
pub enum Outcome {
    /// Print the command and finish successfully.
    Accept,
    /// Finish unsuccessfully.
    Cancel,
    /// The command changed: show it again and wait for the next choice.
    Moved,
}

/// The insertion point one word to the left, wrapping from the front to the end.
pub open spec fn cursor_left(pos: int, nargs: int) -> int {
    if pos == 0 { nargs } else { pos - 1 }
}

/// The insertion point one word to the right, wrapping from the end to the front.
pub open spec fn cursor_right(pos: int, nargs: int) -> int {
    (pos + 1) % (nargs + 1)
}

/// The next saved path, wrapping from the last to the first.
pub open spec fn entry_up(id: int, nfiles: int) -> int {
    (id + 1) % nfiles
}

/// The previous saved path, wrapping from the first to the last.
pub open spec fn entry_down(id: int, nfiles: int) -> int {
    if id == 0 { nfiles - 1 } else { id - 1 }
}

/// The choice that a key press makes, if any: Enter accepts, Ctrl+C (with no
/// other modifier) cancels, and the arrow keys move.
pub open spec fn key_selection(key: Key, control_only: bool) -> Option<Selection> {
    match key {
        Key::Enter => Some(Selection::Accept),
        Key::Char(c) => if c == 'c' && control_only { Some(Selection::Cancel) } else { None },
        Key::Left => Some(Selection::Left),
        Key::Right => Some(Selection::Right),
        Key::Up => Some(Selection::Up),
        Key::Down => Some(Selection::Down),
        Key::Other => None,
    }
}

/// The choice made by pressing `key`; `control_only` says whether Control,
/// and no other modifier, was held.
pub fn selection_for_key(key: Key, control_only: bool) -> (r: Option<Selection>)
    ensures
        r == key_selection(key, control_only),
{
    match key {
        Key::Enter => Some(Selection::Accept),
        Key::Char(c) => if c == 'c' && control_only { Some(Selection::Cancel) } else { None },
        Key::Left => Some(Selection::Left),
        Key::Right => Some(Selection::Right),
        Key::Up => Some(Selection::Up),
        Key::Down => Some(Selection::Down),
        Key::Other => None,
    }
}

impl ExtCmd {
    /// The word count agrees with the words, and the insertion point lies
    /// among them (at most one past the last).
    pub open spec fn wf(&self) -> bool {
        &&& self.nargs == self.cmd_args.len()
        &&& self.cur_pos <= self.nargs
    }

    /// Whether `sel` can be applied without an arithmetic fault, given
    /// `nfiles` saved paths.
    pub open spec fn can_step(&self, sel: Selection, nfiles: usize) -> bool {
        match sel {
            Selection::Right => self.cur_pos < usize::MAX && self.nargs < usize::MAX,
            Selection::Up => nfiles > 0 && self.id < usize::MAX,
            Selection::Down => self.id > 0 || nfiles > 0,
            _ => true,
        }
    }

    /// The command `cmd_args` with the saved path `id` to go after its first
    /// word.
    pub fn new(id: usize, cmd_args: Vec<String>) -> (c: ExtCmd)
        ensures
            c.id == id,
            c.cmd_args@ == cmd_args@,
            c.cur_pos == 1,
            c.nargs == cmd_args.len(),
    {
        let nargs = cmd_args.len();
        ExtCmd { id, cmd_args, cur_pos: 1, nargs }
    }

    /// Applies a choice of the picker, with `nfiles` saved paths.
    pub fn step(&mut self, sel: Selection, nfiles: usize) -> (o: Outcome)
        requires
            old(self).can_step(sel, nfiles),
        ensures
            final(self).cmd_args == old(self).cmd_args,
            final(self).nargs == old(self).nargs,
            old(self).wf() ==> final(self).wf(),
            old(self).id < nfiles ==> final(self).id < nfiles,
            match sel {
                Selection::Accept => o == Outcome::Accept && *final(self) == *old(self),
                Selection::Cancel => o == Outcome::Cancel && *final(self) == *old(self),
                Selection::Left => o == Outcome::Moved && final(self).id == old(self).id
                    && final(self).cur_pos == cursor_left(old(self).cur_pos as int, old(self).nargs as int),
                Selection::Right => o == Outcome::Moved && final(self).id == old(self).id
                    && final(self).cur_pos == cursor_right(old(self).cur_pos as int, old(self).nargs as int),
                Selection::Up => o == Outcome::Moved && final(self).cur_pos == old(self).cur_pos
                    && final(self).id == entry_up(old(self).id as int, nfiles as int),
                Selection::Down => o == Outcome::Moved && final(self).cur_pos == old(self).cur_pos
                    && final(self).id == entry_down(old(self).id as int, nfiles as int),
            },
    {
        match sel {
            Selection::Accept => Outcome::Accept,
            Selection::Cancel => Outcome::Cancel,
            Selection::Left => {
                proof {
                    if old(self).wf() {
                        lemma_cursor_moves_undo(self.cur_pos as int, self.nargs as int);
                    }
                }
                if self.cur_pos == 0 {
                    self.cur_pos = self.nargs;
                } else {
                    self.cur_pos = self.cur_pos - 1;
                }
                Outcome::Moved
            },
            Selection::Right => {
                proof {
                    if old(self).wf() {
                        lemma_cursor_moves_undo(self.cur_pos as int, self.nargs as int);
                    }
                }
                self.cur_pos = (self.cur_pos + 1) % (self.nargs + 1);
                Outcome::Moved
            },
            Selection::Up => {
                proof {
                    if self.id < nfiles {
                        lemma_entry_moves_undo(self.id as int, nfiles as int);
                    }
                }
                self.id = (self.id + 1) % nfiles;
                Outcome::Moved
            },
            Selection::Down => {
                proof {
                    if self.id < nfiles {
                        lemma_entry_moves_undo(self.id as int, nfiles as int);
                    }
                }
                if self.id == 0 {
                    self.id = nfiles - 1;
                } else {
                    self.id = self.id - 1;
                }
                Outcome::Moved
            },
        }
    }
}

/// Moving the insertion point right undoes moving it left and the other way
/// round, and the insertion point stays among the words.
pub proof fn lemma_cursor_moves_undo(pos: int, nargs: int)
    requires
        0 <= pos <= nargs,
    ensures
        cursor_left(cursor_right(pos, nargs), nargs) == pos,
        cursor_right(cursor_left(pos, nargs), nargs) == pos,
        0 <= cursor_left(pos, nargs) <= nargs,
        0 <= cursor_right(pos, nargs) <= nargs,
{
    if pos < nargs {
        assert((pos + 1) % (nargs + 1) == pos + 1) by (nonlinear_arith)
            requires 0 <= pos < nargs;
    } else {
        assert((pos + 1) % (nargs + 1) == 0) by (nonlinear_arith)
            requires pos == nargs, nargs >= 0;
    }
    if pos == 0 {
        assert((nargs + 1) % (nargs + 1) == 0) by (nonlinear_arith)
            requires nargs >= 0;
    } else {
        assert(pos % (nargs + 1) == pos) by (nonlinear_arith)
            requires 0 < pos <= nargs;
    }
}

/// Taking the next saved path undoes taking the previous one and the other
/// way round, and the choice stays among the saved paths.
pub proof fn lemma_entry_moves_undo(id: int, nfiles: int)
    requires
        0 <= id < nfiles,
    ensures
        entry_down(entry_up(id, nfiles), nfiles) == id,
        entry_up(entry_down(id, nfiles), nfiles) == id,
        0 <= entry_up(id, nfiles) < nfiles,
        0 <= entry_down(id, nfiles) < nfiles,
{
    if id + 1 < nfiles {
        assert((id + 1) % nfiles == id + 1) by (nonlinear_arith)
            requires 0 <= id, id + 1 < nfiles;
    } else {
        assert((id + 1) % nfiles == 0) by (nonlinear_arith)
            requires id + 1 == nfiles, nfiles > 0;
    }
    if id == 0 {
        assert(nfiles % nfiles == 0) by (nonlinear_arith)
            requires nfiles > 0;
    } else {
        assert(id % nfiles == id) by (nonlinear_arith)
            requires 0 < id < nfiles;
    }
}


/// The insertion point after `k` moves to the right from `pos`.
pub open spec fn cursor_right_times(pos: int, nargs: int, k: nat) -> int
    decreases k,
{
    if k == 0 {
        pos
    } else {
        cursor_right(cursor_right_times(pos, nargs, (k - 1) as nat), nargs)
    }
}

/// The saved path chosen after `k` moves up from `id`.
pub open spec fn entry_up_times(id: int, nfiles: int, k: nat) -> int
    decreases k,
{
    if k == 0 {
        id
    } else {
        entry_up(entry_up_times(id, nfiles, (k - 1) as nat), nfiles)
    }
}

/// Moving right `k` times advances the insertion point by `k` around the
/// `nargs + 1` places: every place is reached in turn, and `nargs + 1` moves
/// bring the path back where it was.
pub proof fn lemma_cursor_cycles(pos: int, nargs: int, k: nat)
    requires
        0 <= pos <= nargs,
    ensures
        cursor_right_times(pos, nargs, k) == (pos + k) % (nargs + 1),
        cursor_right_times(pos, nargs, (nargs + 1) as nat) == pos,
{
    lemma_cursor_times(pos, nargs, k);
    lemma_cursor_times(pos, nargs, (nargs + 1) as nat);
    vstd::arithmetic::div_mod::lemma_mod_add_multiples_vanish(pos, nargs + 1);
    vstd::arithmetic::div_mod::lemma_small_mod(pos as nat, (nargs + 1) as nat);
}

proof fn lemma_cursor_times(pos: int, nargs: int, k: nat)
    requires
        0 <= pos <= nargs,
    ensures
        cursor_right_times(pos, nargs, k) == (pos + k) % (nargs + 1),
    decreases k,
{
    if k > 0 {
        lemma_cursor_times(pos, nargs, (k - 1) as nat);
        vstd::arithmetic::div_mod::lemma_add_mod_noop_right(1, pos + k - 1, nargs + 1);
    } else {
        vstd::arithmetic::div_mod::lemma_small_mod(pos as nat, (nargs + 1) as nat);
    }
}

proof fn lemma_entry_times(id: int, nfiles: int, k: nat)
    requires
        0 <= id < nfiles,
    ensures
        entry_up_times(id, nfiles, k) == (id + k) % nfiles,
    decreases k,
{
    if k > 0 {
        lemma_entry_times(id, nfiles, (k - 1) as nat);
        vstd::arithmetic::div_mod::lemma_add_mod_noop_right(1, id + k - 1, nfiles);
    } else {
        vstd::arithmetic::div_mod::lemma_small_mod(id as nat, nfiles as nat);
    }
}

/// Moving up `k` times advances the choice by `k` around the `nfiles` saved
/// paths: every saved path is offered in turn, and `nfiles` moves bring the
/// choice back where it was.
pub proof fn lemma_entry_cycles(id: int, nfiles: int, k: nat)
    requires
        0 <= id < nfiles,
    ensures
        entry_up_times(id, nfiles, k) == (id + k) % nfiles,
        entry_up_times(id, nfiles, nfiles as nat) == id,
{
    lemma_entry_times(id, nfiles, k);
    lemma_entry_times(id, nfiles, nfiles as nat);
    vstd::arithmetic::div_mod::lemma_mod_add_multiples_vanish(id, nfiles);
    vstd::arithmetic::div_mod::lemma_small_mod(id as nat, nfiles as nat);
}

} // verus!
