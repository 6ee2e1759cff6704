//! The decisions of the line reader: joining continuation lines, and what
//! each key does to the line being edited and to the cursor. Reading keys
//! and drawing on the terminal are left to the caller.
use vstd::prelude::*;
use vstd::string::{StrSliceExecFns, StringExecFns};
use crate::text::{trim, trim_str};

verus! {

/// Whether a trimmed line ends with a `\` that is not itself escaped.
pub open spec fn continues(t: Seq<char>) -> bool {
    t.len() > 0 && t.last() == '\\' && (t.len() == 1 || t[t.len() - 2] != '\\')
}

/// The line read so far, with the raw line `raw` appended and trimmed; when
/// it ends in a continuation `\`, without it, and another line is wanted.
pub open spec fn joined_line(acc: Seq<char>, raw: Seq<char>) -> (Seq<char>, bool) {
    let t = trim(acc + raw);
    if continues(t) {
        (t.drop_last(), true)
    } else {
        (t, false)
    }
}

/// Adds the raw line `raw` to the logical line `acc`. Returns the new
/// logical line, and whether a further line is to be read (after the
/// secondary prompt).
pub fn read_command(acc: &String, raw: &str) -> (r: (String, bool))
    ensures
        (r.0@, r.1) == joined_line(acc@, raw@),
{
    let mut all = acc.clone();
    all.append(raw);
    let t = trim_str(all.as_str());
    let n = t.as_str().unicode_len();
    let ends = n > 0 && t.as_str().get_char(n - 1) == '\\' && (n == 1 || t.as_str().get_char(n - 2)
        != '\\');
    if ends {
        let cut = t.as_str().substring_char(0, n - 1).to_string();
        assert(cut@ =~= t@.drop_last());
        (cut, true)
    } else {
        (t, false)
    }
}

/// Backspace: removes the character before the insertion point and moves
/// the cursor one column left, to the end of the row above from the first
/// column.
pub fn key_backspace(line: &mut Vec<char>, cur_x: &mut u16, cur_y: &mut u16, ins_cur: &mut u32, terminal_cols: u16)
    ensures
        *old(ins_cur) == 0 || *old(ins_cur) as int > old(line)@.len() ==> final(line)@ == old(line)@
            && *final(cur_x) == *old(cur_x) && *final(cur_y) == *old(cur_y) && *final(ins_cur)
            == *old(ins_cur),
        0 < *old(ins_cur) <= old(line)@.len() ==> {
            &&& final(line)@ == old(line)@.remove(*old(ins_cur) - 1)
            &&& *final(ins_cur) == *old(ins_cur) - 1
            &&& *old(cur_x) == 1 ==> *final(cur_x) == terminal_cols && *final(cur_y) as int == if *old(
                cur_y,
            ) > 0 {
                *old(cur_y) - 1
            } else {
                0
            }
            &&& *old(cur_x) != 1 ==> *final(cur_y) == *old(cur_y) && *final(cur_x) as int == if *old(
                cur_x,
            ) > 0 {
                *old(cur_x) - 1
            } else {
                0
            }
        },
{
    if *ins_cur == 0 || *ins_cur as usize > line.len() {
        return;
    }
    line.remove((*ins_cur - 1) as usize);
    if *cur_x == 1 {
        *cur_x = terminal_cols;
        if *cur_y > 0 {
            *cur_y = *cur_y - 1;
        }
    } else if *cur_x > 0 {
        *cur_x = *cur_x - 1;
    }
    *ins_cur = *ins_cur - 1;
}

/// Left arrow: moves the insertion point one character back; from the
/// first column the cursor goes to the row above.
pub fn key_left_arrow(cur_x: &mut u16, cur_y: &mut u16, ins_cur: &mut u32, terminal_cols: u16)
    ensures
        ({
            let x0 = if *old(cur_x) == 1 {
                if terminal_cols < u16::MAX {
                    terminal_cols + 1
                } else {
                    terminal_cols as int
                }
            } else {
                *old(cur_x) as int
            };
            let y = if *old(cur_x) == 1 && *old(cur_y) > 0 {
                *old(cur_y) - 1
            } else {
                *old(cur_y) as int
            };
            &&& *final(cur_y) as int == y
            &&& *old(ins_cur) > 0 ==> *final(ins_cur) == *old(ins_cur) - 1 && *final(cur_x) as int
                == if x0 > 0 {
                x0 - 1
            } else {
                0
            }
            &&& *old(ins_cur) == 0 ==> *final(ins_cur) == 0 && *final(cur_x) as int == x0
        }),
{
    if *cur_x == 1 {
        *cur_x = if terminal_cols < u16::MAX {
            terminal_cols + 1
        } else {
            terminal_cols
        };
        if *cur_y > 0 {
            *cur_y = *cur_y - 1;
        }
    }
    if *ins_cur > 0 {
        *ins_cur = *ins_cur - 1;
        if *cur_x > 0 {
            *cur_x = *cur_x - 1;
        }
    }
}

/// Right arrow: moves the insertion point one character on, unless it is at
/// the end of the line; from the last column the cursor goes to the start
/// of the next row.
pub fn key_right_arrow(line: &Vec<char>, cur_x: &mut u16, cur_y: &mut u16, ins_cur: &mut u32, terminal_cols: u16)
    ensures
        *old(ins_cur) as int >= line@.len() || *old(ins_cur) == u32::MAX ==> *final(cur_x) == *old(
            cur_x,
        ) && *final(cur_y) == *old(cur_y) && *final(ins_cur) == *old(ins_cur),
        (*old(ins_cur) as int) < line@.len() && *old(ins_cur) < u32::MAX ==> {
            &&& *final(ins_cur) == *old(ins_cur) + 1
            &&& *old(cur_x) == terminal_cols ==> *final(cur_x) == 1 && *final(cur_y) as int == if *old(
                cur_y,
            ) < u16::MAX {
                *old(cur_y) + 1
            } else {
                *old(cur_y) as int
            }
            &&& *old(cur_x) != terminal_cols ==> *final(cur_y) == *old(cur_y) && *final(cur_x) as int
                == if *old(cur_x) < u16::MAX {
                *old(cur_x) + 1
            } else {
                *old(cur_x) as int
            }
        },
{
    if *ins_cur as usize >= line.len() || *ins_cur == u32::MAX {
        return;
    }
    if *cur_x == terminal_cols {
        *cur_x = 0;
        if *cur_y < u16::MAX {
            *cur_y = *cur_y + 1;
        }
    }
    *ins_cur = *ins_cur + 1;
    if *cur_x < u16::MAX {
        *cur_x = *cur_x + 1;
    }
}

/// A typed character: inserted at the insertion point, which moves past
/// it; the cursor moves one column right, or to the start of the next row
/// from the last column.
pub fn key_char(line: &mut Vec<char>, ch: char, cur_x: &mut u16, cur_y: &mut u16, ins_cur: &mut u32, terminal_cols: u16)
    ensures
        *old(ins_cur) == u32::MAX ==> final(line)@ == old(line)@ && *final(cur_x) == *old(cur_x)
            && *final(cur_y) == *old(cur_y) && *final(ins_cur) == *old(ins_cur),
        *old(ins_cur) < u32::MAX ==> {
            let at = if (*old(ins_cur) as int) < old(line)@.len() {
                *old(ins_cur) as int
            } else {
                old(line)@.len() as int
            };
            &&& final(line)@ == old(line)@.insert(at, ch)
            &&& *final(ins_cur) == *old(ins_cur) + 1
            &&& *old(cur_x) < terminal_cols ==> *final(cur_x) == *old(cur_x) + 1 && *final(cur_y)
                == *old(cur_y)
            &&& *old(cur_x) >= terminal_cols ==> *final(cur_x) == 0 && *final(cur_y) as int == if *old(
                cur_y,
            ) < u16::MAX {
                *old(cur_y) + 1
            } else {
                *old(cur_y) as int
            }
        },
{
    if *ins_cur == u32::MAX {
        return;
    }
    if (*ins_cur as usize) < line.len() {
        line.insert(*ins_cur as usize, ch);
    } else {
        line.push(ch);
        assert(line@ =~= old(line)@.insert(old(line)@.len() as int, ch));
    }
    *ins_cur = *ins_cur + 1;
    if *cur_x < terminal_cols {
        *cur_x = *cur_x + 1;
    } else {
        *cur_x = 0;
        if *cur_y < u16::MAX {
            *cur_y = *cur_y + 1;
        }
    }
}

/// The rows that the prompt and the line up to the insertion point take
/// beyond the first: how far up the redraw starts.
pub fn rows_above(ins_cur: u32, prompt_len: usize, terminal_cols: u16) -> (r: usize)
    requires
        terminal_cols > 0,
    ensures
        r as int == (ins_cur as int + prompt_len as int) / (terminal_cols as int) || (ins_cur as int
            + prompt_len as int > usize::MAX && r == usize::MAX),
{
    if prompt_len > usize::MAX - (ins_cur as usize) {
        return usize::MAX;
    }
    (ins_cur as usize + prompt_len) / (terminal_cols as usize)
}

/// Whether the redrawn line fills the last row of the terminal exactly, so
/// that a newline is needed to scroll.
pub fn needs_newline(cur_y: u16, terminal_lines: u16, line_len: usize, prompt_len: usize, terminal_cols: u16) -> (r: bool)
    requires
        terminal_cols > 0,
    ensures
        r == (cur_y as int - 1 == terminal_lines as int && line_len as int + prompt_len as int
            <= usize::MAX && (line_len as int + prompt_len as int) % (terminal_cols as int) == 0),
{
    if cur_y == 0 || cur_y - 1 != terminal_lines {
        return false;
    }
    if prompt_len > usize::MAX - line_len {
        return false;
    }
    (line_len + prompt_len) % (terminal_cols as usize) == 0
}

} // verus!
