//! Laws of the store's update rules and of the scroll controller, stated over
//! the same spec functions the methods' contracts use and proved once for all
//! inputs.
use vstd::prelude::*;

use crate::state::{PeerData, full_record_step, registration_step, pending_address};
use crate::scroll::{NavCommand, spec_navigate, spec_max_cursor};

verus! {

/// A full record pins the peer's address: after it is applied, the stored
/// address for that name is exactly the captured one, whatever the prior
/// state for that name was.
pub proof fn lemma_full_record_sets_address(
    m: Map<Seq<char>, PeerData>,
    name: Seq<char>,
    address: Seq<char>,
    now: int,
)
    ensures
        ({
            let m1 = full_record_step(m, name, address, now);
            m1.dom().contains(name) && m1[name].address == address && m1[name].last_seen == now
        }),
{
}

/// Once a full record has been applied for a name, a later registration-only
/// event for the same name changes nothing at all: in particular the stored
/// address is never downgraded to the pending sentinel.
pub proof fn lemma_registration_never_downgrades(
    m: Map<Seq<char>, PeerData>,
    name: Seq<char>,
    address: Seq<char>,
    t1: int,
    t2: int,
)
    ensures
        ({
            let m1 = full_record_step(m, name, address, t1);
            let m2 = registration_step(m1, name, t2);
            m2 == m1 && m2[name].address == address
        }),
{
}

/// A full record for one name and a registration announcement for a
/// different, so far unknown name build two independent entries: neither
/// disturbs the other.
pub proof fn lemma_records_independent(
    m: Map<Seq<char>, PeerData>,
    name1: Seq<char>,
    addr1: Seq<char>,
    name2: Seq<char>,
    t1: int,
    t2: int,
)
    requires
        name1 != name2,
        !m.dom().contains(name2),
    ensures
        ({
            let m1 = full_record_step(m, name1, addr1, t1);
            let m2 = registration_step(m1, name2, t2);
            m2[name1].address == addr1 && m2[name2].address == pending_address()
        }),
{
}

/// The cursor value every append snaps to — the top of the newest page —
/// satisfies the cursor invariant: it is never negative, never beyond the
/// last full page, and equals total - height exactly when the log exceeds
/// one page.
pub proof fn lemma_auto_follow_in_bounds(total: int, height: int)
    requires
        0 <= total,
    ensures
        0 <= spec_max_cursor(total, height),
        spec_max_cursor(total, height) <= if total - height > 0 {
            total - height
        } else {
            0
        },
        total > height ==> spec_max_cursor(total, height) == total - height,
{
}

/// The cursor after `n` repetitions of one navigation command.
pub open spec fn nav_iter(
    total: int,
    height: int,
    page: int,
    cursor: int,
    cmd: NavCommand,
    n: nat,
) -> int
    decreases n,
{
    if n == 0 {
        cursor
    } else {
        spec_navigate(total, height, page, nav_iter(total, height, page, cursor, cmd, (n - 1) as nat), cmd)
    }
}

/// Navigating home and then moving up any number of lines leaves the cursor
/// at the top: repeated line-up at the boundary is a no-op.
pub proof fn lemma_home_then_line_up(total: int, height: int, page: int, cursor: int, n: nat)
    ensures
        nav_iter(
            total,
            height,
            page,
            spec_navigate(total, height, page, cursor, NavCommand::Home),
            NavCommand::LineUp,
            n,
        ) == 0,
    decreases n,
{
    if n == 0 {
    } else {
        lemma_home_then_line_up(total, height, page, cursor, (n - 1) as nat);
    }
}

/// Navigating to the end and then moving down any number of lines leaves the
/// cursor on the last page: repeated line-down at the boundary is a no-op.
pub proof fn lemma_end_then_line_down(total: int, height: int, page: int, cursor: int, n: nat)
    ensures
        nav_iter(
            total,
            height,
            page,
            spec_navigate(total, height, page, cursor, NavCommand::End),
            NavCommand::LineDown,
            n,
        ) == spec_max_cursor(total, height),
    decreases n,
{
    if n == 0 {
    } else {
        lemma_end_then_line_down(total, height, page, cursor, (n - 1) as nat);
    }
}

} // verus!
