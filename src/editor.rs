use crate::width::{char_to_width, char_width, chars_to_width, chars_width};
use vstd::prelude::*;

verus! {

/// The state of the line being edited: its characters, the cursor, the
/// places where it folds on the screen, and the place in the history.
pub struct Writer {
    pub chars: Vec<char>,
    pub fold_points: Vec<usize>,
    pub previous_fold_points_num: usize,
    pub erased_line_num: usize,
    pub ch_ptr: usize,
    pub hist_ptr: i32,
    pub left_shift: u16,
}

/// Where the line shown after a history move comes from.
#[derive(PartialEq, Eq, Structural, Debug, Clone, Copy)]
pub enum HistorySource {
    /// The entry that many lines from the end of the history file.
    FromFile(usize),
    /// The entry at that index of the session's history.
    FromList(usize),
    /// An empty line, past the newest entry.
    Empty,
}

/// What a Tab key asks for.
#[derive(PartialEq, Eq, Structural, Debug, Clone, Copy)]
pub enum Completion {
    /// Complete the command name being typed.
    Command,
    /// List the command names that could complete it.
    CommandCandidates,
    /// Complete the file name being typed.
    File,
    /// List the file names that could complete it.
    FileCandidates,
}

/// `x` held within `[lo, hi]`.
pub open spec fn clamp(x: int, lo: int, hi: int) -> int {
    if x < lo {
        lo
    } else if x > hi {
        hi
    } else {
        x
    }
}

/// Whether the character at `j` is escaped: a backslash that is not itself
/// escaped stands just before it.
pub open spec fn escaped(s: Seq<char>, j: int) -> bool
    decreases j,
{
    if j <= 0 || j > s.len() {
        false
    } else {
        s[j - 1] == '\\' && !escaped(s, j - 1)
    }
}

/// A blank at `j` that no backslash escapes: words break there.
pub open spec fn word_break(s: Seq<char>, j: int) -> bool {
    0 <= j < s.len() && s[j] == ' ' && !escaped(s, j)
}

/// Where the last word starts: one past the last word break, or 0 where
/// there is none.
pub open spec fn is_last_word_start(s: Seq<char>, k: int) -> bool {
    0 <= k <= s.len() && (k == 0 || word_break(s, k - 1)) && forall|j: int|
        k <= j < s.len() ==> !word_break(s, j)
}

/// Fold scan over `s[0..n]` on a terminal `wx` columns wide whose first row
/// starts after `shift` columns: (fold points, width of the current row,
/// shift of the current row).
pub open spec fn fold_scan(s: Seq<char>, wx: int, shift: int, n: int) -> (Seq<usize>, int, int)
    decreases n,
{
    if n <= 0 {
        (Seq::empty(), 0, shift)
    } else {
        let (fps, sum0, sh) = fold_scan(s, wx, shift, n - 1);
        let w = char_width(s[n - 1]) as int;
        if wx < sum0 + w + sh {
            (fps.push((n - 1) as usize), w, 0)
        } else {
            (fps, sum0 + w, sh)
        }
    }
}

pub proof fn lemma_fold_scan_bound(s: Seq<char>, wx: int, shift: int, n: int)
    requires
        0 <= n,
        0 <= shift,
    ensures
        0 <= fold_scan(s, wx, shift, n).1 <= 255 * n,
        0 <= fold_scan(s, wx, shift, n).2 <= shift,
        fold_scan(s, wx, shift, n).0.len() <= n,
    decreases n,
{
    if n > 0 {
        lemma_fold_scan_bound(s, wx, shift, n - 1);
    }
}

impl Writer {
    pub open spec fn wf(&self) -> bool {
        self.ch_ptr <= self.chars@.len()
    }

    pub fn new(hist_len: usize, left_shift: u16) -> (r: Writer)
        requires
            hist_len <= i32::MAX,
        ensures
            r.wf(),
            r.chars@.len() == 0,
            r.fold_points@.len() == 0,
            r.ch_ptr == 0,
            r.hist_ptr == hist_len as i32,
            r.left_shift == left_shift,
            r.previous_fold_points_num == 0,
            r.erased_line_num == 0,
    {
        Writer {
            chars: Vec::new(),
            fold_points: Vec::new(),
            previous_fold_points_num: 0,
            erased_line_num: 0,
            ch_ptr: 0,
            hist_ptr: hist_len as i32,
            left_shift,
        }
    }

    /// Moves the cursor by `inc` characters, held within the line.
    pub fn move_char_ptr(&mut self, inc: i32)
        requires
            old(self).wf(),
        ensures
            final(self).wf(),
            final(self).ch_ptr as int == clamp(
                old(self).ch_ptr + inc,
                0,
                old(self).chars@.len() as int,
            ),
            final(self).chars@ == old(self).chars@,
            final(self).fold_points@ == old(self).fold_points@,
            final(self).hist_ptr == old(self).hist_ptr,
            final(self).left_shift == old(self).left_shift,
    {
        if inc < 0 {
            let d: usize = (-(inc as i64)) as usize;
            self.ch_ptr = if d > self.ch_ptr {
                0
            } else {
                self.ch_ptr - d
            };
        } else {
            let d: usize = inc as usize;
            self.ch_ptr = if d > self.chars.len() - self.ch_ptr {
                self.chars.len()
            } else {
                self.ch_ptr + d
            };
        }
    }

    /// The row of the folded line that holds the cursor, from the first row,
    /// and the index of the character that starts that row.
    pub fn ch_ptr_to_multiline_origin(&self) -> (r: (usize, u16))
        requires
            self.fold_points@.len() <= u16::MAX,
        ensures
            r.1 <= self.fold_points@.len(),
            forall|j: int| 0 <= j < r.1 ==> self.fold_points@[j] < self.ch_ptr,
            r.1 < self.fold_points@.len() ==> self.ch_ptr <= self.fold_points@[r.1 as int],
            r.1 == 0 ==> r.0 == 0,
            r.1 > 0 ==> r.0 == self.fold_points@[r.1 - 1],
    {
        let mut y: u16 = 0;
        let mut x_from: usize = 0;
        while (y as usize) < self.fold_points.len() && self.fold_points[y as usize] < self.ch_ptr
            invariant
                y <= self.fold_points@.len() <= u16::MAX,
                forall|j: int| 0 <= j < y ==> self.fold_points@[j] < self.ch_ptr,
                y == 0 ==> x_from == 0,
                y > 0 ==> x_from == self.fold_points@[y - 1],
            decreases self.fold_points@.len() - y,
        {
            x_from = self.fold_points[y as usize];
            y = y + 1;
        }
        (x_from, y)
    }

    /// The terminal column (from 1) where the cursor stands: the width of
    /// what precedes it on its row, after the prompt on the first row.
    pub fn cursor_column(&self) -> (r: u32)
        requires
            self.wf(),
            self.fold_points@.len() <= u16::MAX,
            255 * self.chars@.len() + 65536 <= u32::MAX,
        ensures
            ({
                let (org_x, row) = self.spec_origin();
                let w = chars_width(self.chars@.subrange(org_x, self.ch_ptr as int));
                &&& row == 0 ==> r == self.left_shift + w + 1
                &&& row > 0 ==> r == w + 1
            }),
    {
        let (org_x, row) = self.ch_ptr_to_multiline_origin();
        proof {
            assert(self.is_cursor_row(row as int));
            let k = choose|k: int| self.is_cursor_row(k);
            if k < row {
                assert(self.fold_points@[k] < self.ch_ptr);
            }
            if k > row {
                assert(self.fold_points@[row as int] < self.ch_ptr);
            }
            assert(k == row);
        }
        let line = crate::feeder::copy_range(&self.chars, org_x, self.ch_ptr);
        proof {
            crate::width::lemma_chars_width_bound(line@);
        }
        let w = chars_to_width(&line);
        if row == 0 {
            self.left_shift as u32 + w + 1
        } else {
            w + 1
        }
    }

    /// The row of the cursor and the index that starts it, as
    /// `ch_ptr_to_multiline_origin` gives them.
    pub open spec fn spec_origin(&self) -> (int, int) {
        let row = choose|k: int| self.is_cursor_row(k);
        (if row == 0 { 0 } else { self.fold_points@[row - 1] as int }, row)
    }

    /// Row `k` holds the cursor: the fold points before it lie before the cursor,
    /// the next one does not.
    pub open spec fn is_cursor_row(&self, k: int) -> bool {
        0 <= k <= self.fold_points@.len() && (forall|j: int|
            0 <= j < k ==> self.fold_points@[j] < self.ch_ptr) && (k < self.fold_points@.len()
            ==> self.ch_ptr <= self.fold_points@[k])
    }

    /// The word being typed: what follows the last blank that no backslash
    /// escapes.
    pub fn last_word(&self) -> (r: Vec<char>)
        ensures
            exists|k: int|
                is_last_word_start(self.chars@, k) && r@ == self.chars@.subrange(
                    k,
                    self.chars@.len() as int,
                ),
    {
        let mut esc = false;
        let mut pos: usize = 0;
        let mut counter: usize = 0;
        while counter < self.chars.len()
            invariant
                counter <= self.chars@.len(),
                esc == escaped(self.chars@, counter as int),
                pos <= counter,
                pos == 0 || word_break(self.chars@, pos - 1),
                forall|j: int| pos <= j < counter ==> !word_break(self.chars@, j),
            decreases self.chars@.len() - counter,
        {
            let ch = self.chars[counter];
            if esc {
                esc = false;
            } else if ch == '\\' {
                esc = true;
            } else if ch == ' ' {
                pos = counter + 1;
            }
            counter = counter + 1;
        }
        let r = crate::feeder::copy_range(&self.chars, pos, self.chars.len());
        assert(is_last_word_start(self.chars@, pos as int));
        r
    }

    /// Whether the line is one word, a command name: it has no unescaped
    /// blank and does not start with `.` or `/`.
    pub open spec fn typing_command(&self) -> bool {
        (forall|j: int| 0 <= j < self.chars@.len() ==> !word_break(self.chars@, j)) && !(
        self.chars@.len() > 0 && (self.chars@[0] == '.' || self.chars@[0] == '/'))
    }

    /// The completion that the `tab_num`-th Tab in a row asks for: the first
    /// completes, a later one lists candidates; of a command name where the
    /// line is one, else of a file name.
    pub fn tab_completion(&self, tab_num: u32) -> (r: Completion)
        ensures
            self.typing_command() && tab_num == 1 ==> r == Completion::Command,
            self.typing_command() && tab_num != 1 ==> r == Completion::CommandCandidates,
            !self.typing_command() && tab_num == 1 ==> r == Completion::File,
            !self.typing_command() && tab_num != 1 ==> r == Completion::FileCandidates,
    {
        let word = self.last_word();
        let whole = word.len() == self.chars.len();
        proof {
            let k = choose|k: int|
                is_last_word_start(self.chars@, k) && word@ == self.chars@.subrange(
                    k,
                    self.chars@.len() as int,
                );
            if whole {
                assert(k == 0);
            } else if k == 0 {
                assert(word@.len() == self.chars@.len());
            }
        }
        let command = whole && !(word.len() > 0 && (word[0] == '.' || word[0] == '/'));
        proof {
            if whole {
                assert(word@ =~= self.chars@);
            }
        }
        if command {
            if tab_num == 1 {
                Completion::Command
            } else {
                Completion::CommandCandidates
            }
        } else if tab_num == 1 {
            Completion::File
        } else {
            Completion::FileCandidates
        }
    }

    /// Recomputes where the line folds on a terminal `wx` columns wide.
    pub fn calculate_fold_points(&mut self, wx: u32)
        requires
            255 * old(self).chars@.len() + 65535 <= u32::MAX,
        ensures
            final(self).fold_points@ == fold_scan(
                old(self).chars@,
                wx as int,
                old(self).left_shift as int,
                old(self).chars@.len() as int,
            ).0,
            final(self).previous_fold_points_num == old(self).fold_points@.len(),
            final(self).chars@ == old(self).chars@,
            final(self).ch_ptr == old(self).ch_ptr,
            final(self).hist_ptr == old(self).hist_ptr,
            final(self).left_shift == old(self).left_shift,
    {
        self.previous_fold_points_num = self.fold_points.len();
        self.fold_points = Vec::new();
        let mut i: usize = 0;
        let mut sum_length: u32 = 0;
        let mut shift: u16 = self.left_shift;
        while i < self.chars.len()
            invariant
                i <= self.chars@.len(),
                255 * self.chars@.len() + 65535 <= u32::MAX,
                self.chars@ == old(self).chars@,
                self.left_shift == old(self).left_shift,
                self.ch_ptr == old(self).ch_ptr,
                self.hist_ptr == old(self).hist_ptr,
                self.previous_fold_points_num == old(self).fold_points@.len(),
                (self.fold_points@, sum_length as int, shift as int) == fold_scan(
                    self.chars@,
                    wx as int,
                    self.left_shift as int,
                    i as int,
                ),
            decreases self.chars@.len() - i,
        {
            proof {
                lemma_fold_scan_bound(self.chars@, wx as int, self.left_shift as int, i as int);
            }
            let w: u32 = char_to_width(self.chars[i]) as u32;
            if wx < sum_length + w + shift as u32 {
                shift = 0;
                sum_length = w;
                self.fold_points.push(i);
            } else {
                sum_length = sum_length + w;
            }
            i = i + 1;
        }
    }

    /// Puts `c` at the cursor and moves the cursor past it.
    pub fn insert(&mut self, c: char)
        requires
            old(self).wf(),
        ensures
            final(self).wf(),
            final(self).chars@ == old(self).chars@.insert(old(self).ch_ptr as int, c),
            final(self).ch_ptr == old(self).ch_ptr + 1,
            final(self).hist_ptr == old(self).hist_ptr,
            final(self).left_shift == old(self).left_shift,
    {
        self.chars.insert(self.ch_ptr, c);
        self.move_char_ptr(1);
    }

    /// Appends `s` to the end of the line and moves the cursor on by as
    /// many characters.
    pub fn insert_multi(&mut self, s: &Vec<char>)
        requires
            old(self).wf(),
        ensures
            final(self).wf(),
            final(self).chars@ == old(self).chars@ + s@,
            final(self).ch_ptr == old(self).ch_ptr + s@.len(),
            final(self).hist_ptr == old(self).hist_ptr,
            final(self).left_shift == old(self).left_shift,
    {
        let mut i: usize = 0;
        while i < s.len()
            invariant
                i <= s@.len(),
                self.wf(),
                self.chars@ == old(self).chars@ + s@.subrange(0, i as int),
                self.ch_ptr == old(self).ch_ptr + i,
                self.hist_ptr == old(self).hist_ptr,
                self.left_shift == old(self).left_shift,
            decreases s@.len() - i,
        {
            self.chars.push(s[i]);
            self.move_char_ptr(1);
            proof {
                assert(s@.subrange(0, i + 1) =~= s@.subrange(0, i as int).push(s@[i as int]));
            }
            i = i + 1;
        }
        proof {
            assert(s@.subrange(0, i as int) =~= s@);
        }
    }

    /// Backspace: deletes the character before the cursor (at the start of
    /// the line, the one under it) and moves the cursor back.
    pub fn remove(&mut self)
        requires
            old(self).wf(),
        ensures
            final(self).wf(),
            old(self).chars@.len() == 0 ==> final(self).chars@ == old(self).chars@
                && final(self).ch_ptr == old(self).ch_ptr,
            old(self).chars@.len() > 0 ==> final(self).ch_ptr as int == clamp(
                old(self).ch_ptr - 1,
                0,
                old(self).chars@.len() as int,
            ) && final(self).chars@ == old(self).chars@.remove(final(self).ch_ptr as int),
            final(self).hist_ptr == old(self).hist_ptr,
            final(self).left_shift == old(self).left_shift,
    {
        if self.chars.len() == 0 {
            return;
        }
        self.move_char_ptr(-1);
        self.chars.remove(self.ch_ptr);
    }

    /// Moves through the history by `inc`. An entry of the session's
    /// history becomes the line, with the cursor at its end; past the newest
    /// entry the line is emptied and the place stays just after that entry.
    /// Before the oldest entry the place reaches into the history file, whose
    /// line the caller reads and hands to `set_line`.
    pub fn call_history(&mut self, inc: i32, history: &Vec<Vec<char>>) -> (r: HistorySource)
        requires
            old(self).wf(),
            i32::MIN <= old(self).hist_ptr + inc <= i32::MAX,
            history@.len() <= i32::MAX,
        ensures
            final(self).wf(),
            final(self).left_shift == old(self).left_shift,
            ({
                let h = old(self).hist_ptr + inc;
                &&& h < 0 ==> r == HistorySource::FromFile((-h - 1) as usize)
                    && final(self).hist_ptr == h && final(self).chars@ == old(self).chars@
                    && final(self).ch_ptr == old(self).ch_ptr
                &&& 0 <= h < history@.len() ==> r == HistorySource::FromList(h as usize)
                    && final(self).hist_ptr == h && final(self).chars@ == history@[h]@
                    && final(self).ch_ptr == history@[h]@.len()
                &&& h >= history@.len() ==> r == HistorySource::Empty && final(self).hist_ptr
                    == history@.len() && final(self).chars@.len() == 0 && final(self).ch_ptr == 0
            }),
    {
        self.hist_ptr = self.hist_ptr + inc;
        let len = history.len() as i32;
        if self.hist_ptr < 0 {
            HistorySource::FromFile((-(self.hist_ptr as i64) - 1) as usize)
        } else if self.hist_ptr < len {
            let i = self.hist_ptr as usize;
            let line = crate::feeder::copy_range(&history[i], 0, history[i].len());
            assert(line@ =~= history@[i as int]@);
            self.set_line(line);
            HistorySource::FromList(i)
        } else {
            self.hist_ptr = len;
            self.set_line(Vec::new());
            HistorySource::Empty
        }
    }

    /// Replaces the line by `line`, with the cursor at its end.
    pub fn set_line(&mut self, line: Vec<char>)
        ensures
            final(self).wf(),
            final(self).chars@ == line@,
            final(self).ch_ptr == line@.len(),
            final(self).hist_ptr == old(self).hist_ptr,
            final(self).left_shift == old(self).left_shift,
    {
        self.ch_ptr = line.len();
        self.chars = line;
    }
}

} // verus!
