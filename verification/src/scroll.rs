//! Scroll/view controller: a pure transition from (total log lines, viewport
//! height, current cursor, navigation command) to the new scroll cursor.
use vstd::prelude::*;

verus! {

/// A navigation command, as mapped from a key event by the caller.
#[derive(Clone, Copy, Debug, PartialEq, Eq, Structural)]
pub enum NavCommand {
    LineUp,
    LineDown,
    PageUp,
    PageDown,
    Home,
    End,
    Idle,
}

/// Largest admissible scroll cursor for a log of `total` lines seen through a
/// viewport of `height` lines: the cursor of the last full page, or 0 when the
/// whole log fits.
pub open spec fn spec_max_cursor(total: int, height: int) -> int {
    if total > height {
        total - height
    } else {
        0
    }
}

/// The new cursor after one navigation command. Line moves step by 1, page
/// moves by `page`; all moves are floored at 0 and ceiled at the maximal
/// cursor; `Home` and `End` jump to the respective boundary.
pub open spec fn spec_navigate(total: int, height: int, page: int, cursor: int, cmd: NavCommand) -> int {
    let max = spec_max_cursor(total, height);
    match cmd {
        NavCommand::LineUp => if cursor > 0 { cursor - 1 } else { cursor },
        NavCommand::LineDown => if cursor < max { cursor + 1 } else { cursor },
        NavCommand::PageUp => if cursor > page { cursor - page } else { 0 },
        NavCommand::PageDown => if cursor + page < max { cursor + page } else { max },
        NavCommand::Home => 0,
        NavCommand::End => max,
        NavCommand::Idle => cursor,
    }
}

/// Largest admissible scroll cursor, as executable code.
pub fn max_cursor(total: usize, height: usize) -> (r: usize)
    ensures
        r as int == spec_max_cursor(total as int, height as int),
{
    if total > height {
        total - height
    } else {
        0
    }
}

/// Apply one navigation command to a scroll cursor. The cursor is assumed to
/// be in bounds already (the store keeps it so); the result stays in bounds.
pub fn navigate(total: usize, height: usize, page: usize, cursor: usize, cmd: NavCommand) -> (r: usize)
    requires
        cursor as int <= spec_max_cursor(total as int, height as int),
    ensures
        r as int == spec_navigate(total as int, height as int, page as int, cursor as int, cmd),
        r as int <= spec_max_cursor(total as int, height as int),
{
    let max = max_cursor(total, height);
    match cmd {
        NavCommand::LineUp => if cursor > 0 { cursor - 1 } else { cursor },
        NavCommand::LineDown => if cursor < max { cursor + 1 } else { cursor },
        NavCommand::PageUp => if cursor > page { cursor - page } else { 0 },
        NavCommand::PageDown => {
            if max >= page && cursor < max - page {
                cursor + page
            } else {
                max
            }
        },
        NavCommand::Home => 0,
        NavCommand::End => max,
        NavCommand::Idle => cursor,
    }
}

/// The bounded visible window of the log: at most `height` lines, starting at
/// the scroll cursor.
pub fn visible_slice(logs: &Vec<String>, cursor: usize, height: usize) -> (r: Vec<String>)
    requires
        cursor as int <= logs@.len(),
    ensures
        r@ == logs@.subrange(
            cursor as int,
            if cursor + height <= logs@.len() {
                cursor as int + height as int
            } else {
                logs@.len() as int
            },
        ),
{
    let n = logs.len();
    let end = if height < n - cursor {
        cursor + height
    } else {
        n
    };
    let mut r: Vec<String> = Vec::new();
    let mut i = cursor;
    while i < end
        invariant
            cursor <= i <= end,
            end <= n,
            n == logs@.len(),
            r@ == logs@.subrange(cursor as int, i as int),
        decreases end - i,
    {
        r.push(logs[i].clone());
        proof {
            assert(logs@.subrange(cursor as int, i + 1) =~= logs@.subrange(
                cursor as int,
                i as int,
            ).push(logs@[i as int]));
        }
        i += 1;
    }
    r
}

} // verus!
