//! A small text editor's state: an edit buffer of lines, a cursor, and a
//! viewport. The logic here computes every cursor move, the visible part of
//! each line, and the banner texts; putting them on a console is the
//! caller's work.

use vstd::prelude::*;

use crate::text::char_of_unit;
use crate::text::chars_to_string;
use crate::text::unit_char;

verus! {

/// The bytes of a whole edit buffer, line by line.
pub open spec fn buffer_bytes(b: Seq<Vec<u8>>) -> Seq<u8>
    decreases b.len(),
{
    if b.len() == 0 {
        Seq::empty()
    } else {
        b[0]@ + buffer_bytes(b.skip(1))
    }
}

/// A byte buffer split into lines, each line keeping its terminating newline;
/// a last piece without a newline is kept, an empty one is not.
pub open spec fn split_lines_rec(s: Seq<u8>, acc: Seq<u8>) -> Seq<Seq<u8>>
    decreases s.len(),
{
    if s.len() == 0 {
        if acc.len() == 0 {
            Seq::empty()
        } else {
            seq![acc]
        }
    } else if s[0] == 10 {
        seq![acc.push(10u8)] + split_lines_rec(s.skip(1), Seq::empty())
    } else {
        split_lines_rec(s.skip(1), acc.push(s[0]))
    }
}

/// A byte buffer split into newline-terminated lines.
pub open spec fn split_lines(s: Seq<u8>) -> Seq<Seq<u8>> {
    split_lines_rec(s, Seq::empty())
}

/// The views of a buffer of lines.
pub open spec fn line_views(b: Seq<Vec<u8>>) -> Seq<Seq<u8>> {
    b.map_values(|v: Vec<u8>| v@)
}

/// The part of one line that a viewport shows: at most `width` bytes starting
/// at column `left`, as characters.
pub open spec fn visible_line(line: Seq<u8>, left: int, width: int) -> Seq<char> {
    let sk = if left - 1 <= line.len() {
        line.skip(left - 1)
    } else {
        Seq::empty()
    };
    let tk = if width <= sk.len() {
        sk.take(width)
    } else {
        sk
    };
    tk.map_values(|b: u8| char_of_unit(b as u16))
}

/// The decimal digits of `n`, most significant first.
pub open spec fn dec_chars(n: int) -> Seq<char>
    decreases n,
{
    if n < 10 {
        seq![char_of_unit((48 + if n >= 0 {
            n
        } else {
            0
        }) as u16)]
    } else {
        dec_chars(n / 10).push(char_of_unit((48 + n % 10) as u16))
    }
}

/// Appends the decimal digits of `n`.
fn push_dec(out: &mut Vec<char>, n: u64)
    ensures
        final(out)@ == old(out)@ + dec_chars(n as int),
    decreases n,
{
    if n < 10 {
        out.push(unit_char((48 + n) as u16));
        proof {
            assert(final(out)@ =~= old(out)@ + dec_chars(n as int));
        }
    } else {
        proof {
            vstd::arithmetic::div_mod::lemma_fundamental_div_mod(n as int, 10);
            vstd::arithmetic::div_mod::lemma_mod_bound(n as int, 10);
            let q = n as int / 10;
            assert(10 * q <= n);
            assert(q < n) by (nonlinear_arith)
                requires
                    10 * q <= n,
                    1 <= q,
            ;
        }
        push_dec(out, n / 10);
        out.push(unit_char((48 + (n % 10)) as u16));
        proof {
            assert(final(out)@ =~= old(out)@ + dec_chars(n as int));
        }
    }
}

/// An instance of a text editor: the file's lines, a 1-based cursor, and a
/// 1-based viewport of fixed width and height.
pub struct Editor {
    /// The name of the file being edited.
    pub filename: String,
    /// The file contents by line, each line keeping its newline; edited in
    /// place.
    pub edit_buffer: Vec<Vec<u8>>,
    /// The contents to be written back, rebuilt from the edit buffer on save.
    pub file_buffer: Vec<u8>,
    /// The line the cursor is on (1-based).
    pub line: usize,
    /// The column the cursor is on (1-based).
    pub column: usize,
    /// How many lines the viewport shows at once.
    pub max_output_lines: usize,
    /// How many columns the viewport shows at once.
    pub max_output_columns: usize,
    /// The buffer line shown at the top of the viewport.
    pub top_line: usize,
    /// The buffer column shown at the left of the viewport.
    pub left_column: usize,
    /// Whether the edit buffer holds unsaved changes.
    pub unsaved_changes: bool,
}

impl Editor {
    /// The editor's invariant: 1-based cursor and viewport origin, the cursor
    /// inside the buffer and never left or above the viewport origin, and a
    /// viewport that cannot overflow the address space.
    pub open spec fn wf(&self) -> bool {
        &&& self.line >= 1
        &&& self.column >= 1
        &&& self.top_line >= 1
        &&& self.left_column >= 1
        &&& self.max_output_lines >= 1
        &&& self.max_output_columns >= 1
        &&& self.edit_buffer@.len() == 0 ==> self.line == 1
        &&& self.edit_buffer@.len() > 0 ==> self.line <= self.edit_buffer@.len()
        &&& self.top_line <= self.line
        &&& self.left_column <= self.column
        &&& self.edit_buffer@.len() + self.max_output_lines <= usize::MAX
    }

    /// Builds an editor over `buf`, split into newline-terminated lines, with
    /// a viewport of `max_output_lines` by `max_output_columns`.
    pub fn new(filename: String, buf: &Vec<u8>, max_output_lines: usize, max_output_columns: usize)
        -> (r: Editor)
        requires
            max_output_lines >= 1,
            max_output_columns >= 1,
            buf@.len() + max_output_lines <= usize::MAX,
        ensures
            r.wf(),
            r.filename == filename,
            line_views(r.edit_buffer@) == split_lines(buf@),
            r.file_buffer@ == buffer_bytes(r.edit_buffer@),
            r.line == 1 && r.column == 1 && r.top_line == 1 && r.left_column == 1,
            r.max_output_lines == max_output_lines,
            r.max_output_columns == max_output_columns,
            !r.unsaved_changes,
    {
        let mut edit_buffer: Vec<Vec<u8>> = Vec::new();
        let mut cur: Vec<u8> = Vec::new();
        let mut i: usize = 0;
        proof {
            assert(buf@.skip(0) =~= buf@);
            assert(line_views(edit_buffer@) =~= Seq::<Seq<u8>>::empty());
            assert(Seq::<Seq<u8>>::empty() + split_lines_rec(buf@, cur@) =~= split_lines_rec(
                buf@,
                cur@,
            ));
        }
        while i < buf.len()
            invariant
                i <= buf@.len(),
                edit_buffer@.len() + cur@.len() <= i,
                split_lines(buf@) == line_views(edit_buffer@) + split_lines_rec(
                    buf@.skip(i as int),
                    cur@,
                ),
            decreases buf@.len() - i,
        {
            let b = buf[i];
            proof {
                assert(buf@.skip(i as int)[0] == buf@[i as int]);
                assert(buf@.skip(i as int).skip(1) =~= buf@.skip(i + 1));
            }
            if b == 10 {
                cur.push(10);
                let ghost views_before = line_views(edit_buffer@);
                let ghost finished = cur@;
                edit_buffer.push(cur);
                cur = Vec::new();
                proof {
                    assert(line_views(edit_buffer@) =~= views_before.push(finished));
                    assert(views_before + (seq![finished] + split_lines_rec(
                        buf@.skip(i + 1),
                        Seq::empty(),
                    )) =~= line_views(edit_buffer@) + split_lines_rec(
                        buf@.skip(i + 1),
                        Seq::empty(),
                    ));
                }
            } else {
                cur.push(b);
            }
            i = i + 1;
        }
        proof {
            assert(buf@.skip(buf@.len() as int) =~= Seq::<u8>::empty());
        }
        if cur.len() > 0 {
            let ghost views_before = line_views(edit_buffer@);
            let ghost finished = cur@;
            edit_buffer.push(cur);
            proof {
                assert(line_views(edit_buffer@) =~= views_before.push(finished));
                assert(views_before + seq![finished] =~= line_views(edit_buffer@));
            }
        } else {
            proof {
                assert(line_views(edit_buffer@) + Seq::<Seq<u8>>::empty() =~= line_views(
                    edit_buffer@,
                ));
            }
        }
        let mut ret = Editor {
            filename,
            edit_buffer,
            file_buffer: Vec::new(),
            line: 1,
            column: 1,
            max_output_lines,
            max_output_columns,
            top_line: 1,
            left_column: 1,
            unsaved_changes: false,
        };
        ret.save_edit_buffer();
        ret
    }

    /// Rebuilds the exportable file buffer from the edit buffer.
    pub fn save_edit_buffer(&mut self)
        ensures
            final(self).file_buffer@ == buffer_bytes(old(self).edit_buffer@),
            *final(self) == (Editor { file_buffer: final(self).file_buffer, ..*old(self) }),
    {
        let mut out: Vec<u8> = Vec::new();
        let mut i: usize = 0;
        proof {
            assert(self.edit_buffer@.skip(0) =~= self.edit_buffer@);
            assert(Seq::<u8>::empty() + buffer_bytes(self.edit_buffer@) =~= buffer_bytes(
                self.edit_buffer@,
            ));
        }
        while i < self.edit_buffer.len()
            invariant
                i <= self.edit_buffer@.len(),
                buffer_bytes(self.edit_buffer@) == out@ + buffer_bytes(
                    self.edit_buffer@.skip(i as int),
                ),
            decreases self.edit_buffer@.len() - i,
        {
            let ghost out_before = out@;
            let mut piece: Vec<u8> = Vec::new();
            let line = &self.edit_buffer[i];
            let mut k: usize = 0;
            while k < line.len()
                invariant
                    k <= line@.len(),
                    piece@ == line@.take(k as int),
                decreases line@.len() - k,
            {
                piece.push(line[k]);
                proof {
                    assert(piece@ =~= line@.take(k + 1));
                }
                k = k + 1;
            }
            proof {
                assert(piece@ =~= self.edit_buffer@[i as int]@);
            }
            out.append(&mut piece);
            proof {
                assert(self.edit_buffer@.skip(i as int)[0] == self.edit_buffer@[i as int]);
                assert(self.edit_buffer@.skip(i as int).skip(1) =~= self.edit_buffer@.skip(i + 1));
                assert(out_before + buffer_bytes(self.edit_buffer@.skip(i as int)) =~= out@
                    + buffer_bytes(self.edit_buffer@.skip(i + 1)));
            }
            i = i + 1;
        }
        proof {
            assert(buffer_bytes(self.edit_buffer@.skip(self.edit_buffer@.len() as int))
                =~= Seq::<u8>::empty());
            assert(out@ + Seq::<u8>::empty() =~= out@);
        }
        self.file_buffer = out;
    }

    /// Whether buffer line `line` is inside the viewport.
    pub open spec fn spec_line_within_frame(&self, line: int) -> bool {
        self.top_line <= line < self.top_line + self.max_output_lines
    }

    /// Whether buffer column `column` is inside the viewport.
    pub open spec fn spec_column_within_frame(&self, column: int) -> bool {
        self.left_column <= column < self.left_column + self.max_output_columns
    }

    /// Checks whether buffer line `line` is shown by the viewport.
    fn is_line_within_frame(&self, line: usize) -> (r: bool)
        ensures
            r == self.spec_line_within_frame(line as int),
    {
        self.top_line <= line && line - self.top_line < self.max_output_lines
    }

    /// Checks whether buffer column `column` is shown by the viewport.
    fn is_column_within_frame(&self, column: usize) -> (r: bool)
        ensures
            r == self.spec_column_within_frame(column as int),
    {
        self.left_column <= column && column - self.left_column < self.max_output_columns
    }

    /// The viewport origin after a move to `dest`: unchanged while `dest`
    /// stays inside the frame; anchored to `dest` when the move goes up or
    /// left; anchored so that `dest` ends just past the frame when the move
    /// goes down or right.
    pub open spec fn spec_moved_top(&self, dest_line: int) -> int {
        if self.spec_line_within_frame(dest_line) {
            self.top_line as int
        } else if self.top_line > dest_line {
            dest_line
        } else {
            dest_line - self.max_output_lines
        }
    }

    /// The viewport's left column after a move to `dest_column`.
    pub open spec fn spec_moved_left(&self, dest_column: int) -> int {
        if self.spec_column_within_frame(dest_column) {
            self.left_column as int
        } else if self.left_column > dest_column {
            dest_column
        } else {
            dest_column - (self.max_output_columns - 1)
        }
    }

    /// Moves the cursor to the given buffer coordinates, regardless of
    /// whether text exists there, scrolling the viewport when the target
    /// falls outside it. Returns whether the viewport moved (so the frame
    /// needs redrawing).
    pub fn move_cursor(&mut self, dest_line: usize, dest_column: usize) -> (redraw: bool)
        requires
            old(self).wf(),
            dest_line >= 1,
            dest_column >= 1,
            old(self).edit_buffer@.len() == 0 ==> dest_line == 1,
            old(self).edit_buffer@.len() > 0 ==> dest_line <= old(self).edit_buffer@.len(),
        ensures
            final(self).wf(),
            final(self).line == dest_line,
            final(self).column == dest_column,
            final(self).top_line == old(self).spec_moved_top(dest_line as int),
            final(self).left_column == old(self).spec_moved_left(dest_column as int),
            redraw == (!old(self).spec_line_within_frame(dest_line as int)
                || !old(self).spec_column_within_frame(dest_column as int)),
            *final(self) == (Editor {
                line: final(self).line,
                column: final(self).column,
                top_line: final(self).top_line,
                left_column: final(self).left_column,
                ..*old(self)
            }),
    {
        let mut redraw = false;
        if !self.is_line_within_frame(dest_line) {
            if self.top_line > dest_line {
                self.top_line = dest_line;
            } else {
                self.top_line = dest_line - self.max_output_lines;
            }
            redraw = true;
        }
        if !self.is_column_within_frame(dest_column) {
            if self.left_column > dest_column {
                self.left_column = dest_column;
            } else {
                self.left_column = dest_column - (self.max_output_columns - 1);
            }
            redraw = true;
        }
        self.line = dest_line;
        self.column = dest_column;
        redraw
    }

    /// Moves the cursor up one line, to the character directly above or the
    /// end of a shorter line (column 1 on an empty one); returns `false`, and
    /// changes nothing, on the top line.
    pub fn move_cursor_up(&mut self) -> (moved: bool)
        requires
            old(self).wf(),
        ensures
            final(self).wf(),
            !moved <==> old(self).line == 1,
            !moved ==> *final(self) == *old(self),
            moved ==> {
                let above = old(self).edit_buffer@[old(self).line - 2]@.len() as int;
                &&& final(self).line == old(self).line - 1
                &&& final(self).column == if above == 0 {
                    1
                } else if above < old(self).column {
                    above
                } else {
                    old(self).column as int
                }
            },
    {
        if self.line == 1 {
            return false;
        }
        let above_line_length = self.edit_buffer[self.line - 2].len();
        let dest_column = if above_line_length == 0 {
            1
        } else if above_line_length < self.column {
            above_line_length
        } else {
            self.column
        };
        self.move_cursor(self.line - 1, dest_column);
        true
    }

    /// Moves the cursor down one line, to the character directly below or the
    /// end of a shorter line (column 1 on an empty one); returns `false`, and
    /// changes nothing, on the bottom line or in an empty buffer.
    pub fn move_cursor_down(&mut self) -> (moved: bool)
        requires
            old(self).wf(),
        ensures
            final(self).wf(),
            !moved <==> old(self).line >= old(self).edit_buffer@.len(),
            !moved ==> *final(self) == *old(self),
            moved ==> {
                let below = old(self).edit_buffer@[old(self).line as int]@.len() as int;
                &&& final(self).line == old(self).line + 1
                &&& final(self).column == if below == 0 {
                    1
                } else if below < old(self).column {
                    below
                } else {
                    old(self).column as int
                }
            },
    {
        if self.line >= self.edit_buffer.len() {
            return false;
        }
        let below_line_length = self.edit_buffer[self.line].len();
        let dest_column = if below_line_length == 0 {
            1
        } else if below_line_length < self.column {
            below_line_length
        } else {
            self.column
        };
        self.move_cursor(self.line + 1, dest_column);
        true
    }

    /// Moves the cursor left one column, wrapping to the end of the previous
    /// line at column 1; returns `false`, and changes nothing, at the very
    /// start.
    pub fn move_cursor_left(&mut self) -> (moved: bool)
        requires
            old(self).wf(),
        ensures
            final(self).wf(),
            !moved <==> old(self).line == 1 && old(self).column == 1,
            !moved ==> *final(self) == *old(self),
            moved && old(self).column > 1 ==> final(self).line == old(self).line
                && final(self).column == old(self).column - 1,
            moved && old(self).column == 1 ==> {
                let above = old(self).edit_buffer@[old(self).line - 2]@.len() as int;
                &&& final(self).line == old(self).line - 1
                &&& final(self).column == if above == 0 {
                    1
                } else {
                    above
                }
            },
    {
        if self.line == 1 && self.column == 1 {
            return false;
        }
        if self.column == 1 {
            let above_line_length = self.edit_buffer[self.line - 2].len();
            let dest_column = if above_line_length == 0 {
                1
            } else {
                above_line_length
            };
            self.move_cursor(self.line - 1, dest_column);
        } else {
            self.move_cursor(self.line, self.column - 1);
        }
        true
    }

    /// Moves the cursor right one column, wrapping to the start of the next
    /// line at the end of a line; returns `false`, and changes nothing, past
    /// the end of the last line or in an empty buffer.
    pub fn move_cursor_right(&mut self) -> (moved: bool)
        requires
            old(self).wf(),
            old(self).column < usize::MAX,
        ensures
            final(self).wf(),
            old(self).edit_buffer@.len() == 0 ==> !moved && *final(self) == *old(self),
            !moved ==> *final(self) == *old(self),
            moved && old(self).column as int == old(self).edit_buffer@[old(self).line - 1]@.len()
                && old(self).line < old(self).edit_buffer@.len() ==> final(self).line
                == old(self).line + 1 && final(self).column == 1,
            moved && old(self).column as int != old(self).edit_buffer@[old(self).line - 1]@.len()
                ==> final(self).line == old(self).line && final(self).column == old(self).column
                + 1,
    {
        if self.edit_buffer.len() == 0 {
            return false;
        }
        if self.line == self.edit_buffer.len() && self.column == self.edit_buffer[self.line
            - 1].len() {
            return false;
        }
        if self.column == self.edit_buffer[self.line - 1].len() {
            self.move_cursor(self.line + 1, 1);
        } else {
            self.move_cursor(self.line, self.column + 1);
        }
        true
    }

    /// Moves the cursor to the beginning of the current line and scrolls the
    /// viewport fully left.
    pub fn move_cursor_to_home(&mut self)
        requires
            old(self).wf(),
        ensures
            final(self).wf(),
            *final(self) == (Editor { column: 1usize, left_column: 1usize, ..*old(self) }),
    {
        self.column = 1;
        self.left_column = 1;
    }

    /// Moves the cursor to the end of the current line (column 1 on an empty
    /// one), scrolling right if the end lies past the viewport and back left
    /// if the viewport lies past the end.
    pub fn move_cursor_to_end(&mut self)
        requires
            old(self).wf(),
            old(self).edit_buffer@.len() > 0,
        ensures
            final(self).wf(),
            ({
                let target = old(self).edit_buffer@[old(self).line - 1]@.len() as int;
                let column = if target == 0 {
                    1
                } else {
                    target
                };
                &&& final(self).column == column
                &&& final(self).left_column == if column > old(self).max_output_columns {
                    column - old(self).max_output_columns + 1
                } else if old(self).left_column > column {
                    column
                } else {
                    old(self).left_column as int
                }
                &&& *final(self) == (Editor {
                    column: final(self).column,
                    left_column: final(self).left_column,
                    ..*old(self)
                })
            }),
    {
        let target = self.edit_buffer[self.line - 1].len();
        self.column = if target == 0 {
            1
        } else {
            target
        };
        if self.column > self.max_output_columns {
            self.left_column = self.column - self.max_output_columns + 1;
        } else if self.left_column > self.column {
            self.left_column = self.column;
        }
    }

    /// The screen coordinates of the cursor inside the viewport: 0-based
    /// column, 1-based row (row 0 belongs to the top banner).
    pub fn cursor_position(&self) -> (r: (usize, usize))
        requires
            self.wf(),
            self.line - self.top_line < usize::MAX,
        ensures
            r.0 == self.column - self.left_column,
            r.1 == self.line - self.top_line + 1,
    {
        (self.column - self.left_column, self.line - self.top_line + 1)
    }

    /// The text of one buffer line as the viewport shows it: at most
    /// `max_output_columns` characters starting at `left_column`.
    pub fn display_line(&self, edit_line: usize) -> (r: String)
        requires
            self.wf(),
            1 <= edit_line,
            edit_line <= self.edit_buffer@.len(),
        ensures
            r@ == visible_line(
                self.edit_buffer@[edit_line - 1]@,
                self.left_column as int,
                self.max_output_columns as int,
            ),
    {
        let line = &self.edit_buffer[edit_line - 1];
        let mut chars: Vec<char> = Vec::new();
        let start = if self.left_column - 1 <= line.len() {
            self.left_column - 1
        } else {
            line.len()
        };
        let mut i: usize = start;
        let ghost sk = if self.left_column - 1 <= line@.len() {
            line@.skip(self.left_column - 1)
        } else {
            Seq::<u8>::empty()
        };
        while i < line.len() && i - start < self.max_output_columns
            invariant
                self.wf(),
                line == &self.edit_buffer@[edit_line - 1],
                start == if self.left_column - 1 <= line@.len() {
                    self.left_column - 1
                } else {
                    line@.len() as int
                },
                sk == if self.left_column - 1 <= line@.len() {
                    line@.skip(self.left_column - 1)
                } else {
                    Seq::<u8>::empty()
                },
                start <= i <= line@.len(),
                i - start <= self.max_output_columns,
                chars@ == sk.take(i - start).map_values(|b: u8| char_of_unit(b as u16)),
            decreases line@.len() - i,
        {
            chars.push(unit_char(line[i] as u16));
            proof {
                assert(sk[i - start] == line@[i as int]);
                assert(chars@ =~= sk.take(i - start + 1).map_values(
                    |b: u8| char_of_unit(b as u16),
                ));
            }
            i = i + 1;
        }
        proof {
            let width = self.max_output_columns as int;
            if width <= sk.len() {
                if i - start < width {
                    assert(i == line@.len());
                }
                assert(sk.take(i - start) =~= sk.take(width));
            } else {
                assert(i == line@.len());
                assert(sk.take(i - start) =~= sk);
            }
        }
        chars_to_string(&chars)
    }

    /// The visible text of every viewport row, top to bottom: the shown slice
    /// of each buffer line, and an empty string for rows past the end of the
    /// buffer.
    pub fn display_frame(&self) -> (r: Vec<String>)
        requires
            self.wf(),
        ensures
            r@.len() == self.max_output_lines,
            forall|j: int|
                0 <= j < r@.len() ==> r@[j]@ == if self.top_line + j <= self.edit_buffer@.len() {
                    visible_line(
                        self.edit_buffer@[self.top_line + j - 1]@,
                        self.left_column as int,
                        self.max_output_columns as int,
                    )
                } else {
                    Seq::<char>::empty()
                },
    {
        let mut rows: Vec<String> = Vec::new();
        let mut j: usize = 0;
        while j < self.max_output_lines
            invariant
                self.wf(),
                j <= self.max_output_lines,
                rows@.len() == j,
                forall|k: int|
                    0 <= k < j ==> rows@[k]@ == if self.top_line + k
                        <= self.edit_buffer@.len() {
                        visible_line(
                            self.edit_buffer@[self.top_line + k - 1]@,
                            self.left_column as int,
                            self.max_output_columns as int,
                        )
                    } else {
                        Seq::<char>::empty()
                    },
            decreases self.max_output_lines - j,
        {
            let line_index = self.top_line - 1 + j;
            if line_index < self.edit_buffer.len() {
                rows.push(self.display_line(line_index + 1));
            } else {
                rows.push(String::new());
            }
            j = j + 1;
        }
        rows
    }

    /// The text of the top banner: the file name, and a marker for unsaved
    /// changes.
    pub fn draw_top_banner(&self) -> (r: String)
        ensures
            r@ == " "@ + self.filename@ + if self.unsaved_changes {
                " * "@
            } else {
                Seq::<char>::empty()
            },
    {
        let mut banner = String::new();
        banner.append(" ");
        banner.append(self.filename.as_str());
        if self.unsaved_changes {
            banner.append(" * ");
        }
        banner
    }

    /// The text of the bottom banner: the key manual and the cursor position.
    pub fn draw_bottom_banner(&self) -> (r: String)
        ensures
            r@ == " F1: Save - F2: Exit ("@ + dec_chars(self.line as int) + ","@ + dec_chars(
                self.column as int,
            ) + ")"@,
    {
        let mut chars: Vec<char> = Vec::new();
        push_dec(&mut chars, self.line as u64);
        let line_digits = chars_to_string(&chars);
        let mut chars2: Vec<char> = Vec::new();
        push_dec(&mut chars2, self.column as u64);
        let column_digits = chars_to_string(&chars2);
        let mut banner = String::new();
        banner.append(" F1: Save - F2: Exit (");
        banner.append(line_digits.as_str());
        banner.append(",");
        banner.append(column_digits.as_str());
        banner.append(")");
        proof {
            assert(chars@ =~= Seq::<char>::empty() + dec_chars(self.line as int));
            assert(chars2@ =~= Seq::<char>::empty() + dec_chars(self.column as int));
        }
        banner
    }
}

} // verus!
