//! Queries over the selection and the install statuses.
use vstd::prelude::*;
use crate::state::ToolStatus;
use crate::tool::{TOOL_COUNT, Tool};

verus! {

/// Number of `true` entries.
pub open spec fn count_true(s: Seq<bool>) -> nat
    decreases s.len(),
{
    if s.len() == 0 {
        0
    } else {
        count_true(s.drop_last()) + if s.last() {
            1nat
        } else {
            0nat
        }
    }
}

/// The tools whose box is checked, in catalogue order.
pub open spec fn chosen_of(checked: Seq<bool>) -> Seq<Tool>
    decreases checked.len(),
{
    if checked.len() == 0 {
        Seq::empty()
    } else {
        let prev = chosen_of(checked.drop_last());
        if checked.last() {
            prev.push(Tool::spec_at(checked.len() - 1))
        } else {
            prev
        }
    }
}

/// Positions of the tools taking part in the install session, in order.
pub open spec fn visible_of(st: Seq<ToolStatus>) -> Seq<usize>
    decreases st.len(),
{
    if st.len() == 0 {
        Seq::empty()
    } else {
        let prev = visible_of(st.drop_last());
        if st.last() != ToolStatus::NotSelected {
            prev.push((st.len() - 1) as usize)
        } else {
            prev
        }
    }
}

/// First position at or after `j` where `c` stands in `vis`.
pub open spec fn pos_from(vis: Seq<usize>, c: usize, j: int) -> Option<int>
    decreases vis.len() - j,
{
    if j < 0 || j >= vis.len() {
        None
    } else if vis[j] == c {
        Some(j)
    } else {
        pos_from(vis, c, j + 1)
    }
}

/// Position of `c` in `vis`, or 0 when absent.
pub open spec fn pos_or_zero(vis: Seq<usize>, c: usize) -> int {
    match pos_from(vis, c, 0) {
        Some(j) => j,
        None => 0,
    }
}

/// Nothing is pending or running, and at least one tool took part.
pub open spec fn spec_all_done(st: Seq<ToolStatus>) -> bool {
    &&& forall|i: int|
        0 <= i < st.len() ==> #[trigger] st[i] != ToolStatus::Pending && st[i]
            != ToolStatus::Running
    &&& exists|i: int| 0 <= i < st.len() && #[trigger] st[i] != ToolStatus::NotSelected
}

/// Some tool of `tools` needs the pacman lock (and so sudo).
pub open spec fn any_needs_lock(tools: Seq<Tool>) -> bool {
    exists|i: int| 0 <= i < tools.len() && (#[trigger] tools[i]).spec_needs_pacman_lock()
}

/// The tools of `tools` that have a post-install prompt, in order.
pub open spec fn with_post_install(tools: Seq<Tool>) -> Seq<Tool>
    decreases tools.len(),
{
    if tools.len() == 0 {
        Seq::empty()
    } else {
        let prev = with_post_install(tools.drop_last());
        if tools.last().spec_has_post_install() {
            prev.push(tools.last())
        } else {
            prev
        }
    }
}

/// Number of checked boxes.
pub fn checked_count(checked: &Vec<bool>) -> (n: usize)
    ensures
        n == count_true(checked@),
{
    let mut n: usize = 0;
    let mut i: usize = 0;
    while i < checked.len()
        invariant
            i <= checked.len(),
            n == count_true(checked@.take(i as int)),
            n <= i,
        decreases checked.len() - i,
    {
        assert(checked@.take(i + 1).drop_last() == checked@.take(i as int));
        if checked[i] {
            n += 1;
        }
        i += 1;
    }
    assert(checked@.take(checked.len() as int) == checked@);
    n
}

/// The checked tools, in catalogue order.
pub(crate) fn chosen(checked: &Vec<bool>) -> (v: Vec<Tool>)
    requires
        checked.len() <= TOOL_COUNT,
    ensures
        v@ == chosen_of(checked@),
{
    let mut v: Vec<Tool> = Vec::new();
    let mut i: usize = 0;
    while i < checked.len()
        invariant
            i <= checked.len() <= TOOL_COUNT,
            v@ == chosen_of(checked@.take(i as int)),
        decreases checked.len() - i,
    {
        assert(checked@.take(i + 1).drop_last() == checked@.take(i as int));
        if checked[i] {
            v.push(Tool::from_index(i));
        }
        i += 1;
    }
    assert(checked@.take(checked.len() as int) == checked@);
    v
}

/// Positions of the tools taking part in the install session.
pub fn visible_indices(statuses: &Vec<ToolStatus>) -> (v: Vec<usize>)
    ensures
        v@ == visible_of(statuses@),
        forall|j: int| 0 <= j < v@.len() ==> #[trigger] v@[j] < statuses@.len(),
{
    let mut v: Vec<usize> = Vec::new();
    let mut i: usize = 0;
    while i < statuses.len()
        invariant
            i <= statuses.len(),
            v@ == visible_of(statuses@.take(i as int)),
            forall|j: int| 0 <= j < v@.len() ==> #[trigger] v@[j] < i,
        decreases statuses.len() - i,
    {
        assert(statuses@.take(i + 1).drop_last() == statuses@.take(i as int));
        if statuses[i] != ToolStatus::NotSelected {
            v.push(i);
        }
        i += 1;
    }
    assert(statuses@.take(statuses.len() as int) == statuses@);
    v
}

/// Position of `c` in `vis`, or 0 when absent.
pub fn position_or_zero(vis: &Vec<usize>, c: usize) -> (p: usize)
    ensures
        p == pos_or_zero(vis@, c),
        vis.len() > 0 ==> p < vis.len(),
{
    let mut j: usize = 0;
    while j < vis.len()
        invariant
            j <= vis.len(),
            pos_from(vis@, c, 0) == pos_from(vis@, c, j as int),
        decreases vis.len() - j,
    {
        if vis[j] == c {
            return j;
        }
        j += 1;
    }
    0
}

/// Every tool that took part has finished, and at least one took part.
pub fn is_all_done(statuses: &Vec<ToolStatus>) -> (b: bool)
    ensures
        b == spec_all_done(statuses@),
{
    let mut any = false;
    let mut i: usize = 0;
    while i < statuses.len()
        invariant
            i <= statuses.len(),
            forall|k: int|
                0 <= k < i ==> #[trigger] statuses@[k] != ToolStatus::Pending && statuses@[k]
                    != ToolStatus::Running,
            any == exists|k: int| 0 <= k < i && #[trigger] statuses@[k] != ToolStatus::NotSelected,
        decreases statuses.len() - i,
    {
        let s = statuses[i];
        if s == ToolStatus::Pending || s == ToolStatus::Running {
            return false;
        }
        if s != ToolStatus::NotSelected {
            any = true;
        }
        i += 1;
    }
    any
}

/// Whether some tool of `tools` needs the pacman lock.
pub fn any_tool_needs_lock(tools: &Vec<Tool>) -> (b: bool)
    ensures
        b == any_needs_lock(tools@),
{
    let mut i: usize = 0;
    while i < tools.len()
        invariant
            i <= tools.len(),
            forall|k: int| 0 <= k < i ==> !(#[trigger] tools@[k]).spec_needs_pacman_lock(),
        decreases tools.len() - i,
    {
        if tools[i].needs_pacman_lock() {
            return true;
        }
        i += 1;
    }
    false
}

/// Counts shown in the install footer: (done, failed, running, taking part).
pub open spec fn spec_status_counts(st: Seq<ToolStatus>) -> (nat, nat, nat, nat)
    decreases st.len(),
{
    if st.len() == 0 {
        (0, 0, 0, 0)
    } else {
        let p = spec_status_counts(st.drop_last());
        let s = st.last();
        (
            p.0 + if s == ToolStatus::Done {
                1nat
            } else {
                0nat
            },
            p.1 + if s == ToolStatus::Failed {
                1nat
            } else {
                0nat
            },
            p.2 + if s == ToolStatus::Running {
                1nat
            } else {
                0nat
            },
            p.3 + if s != ToolStatus::NotSelected {
                1nat
            } else {
                0nat
            },
        )
    }
}

/// Counts shown in the install footer: (done, failed, running, taking part).
pub fn status_counts(statuses: &Vec<ToolStatus>) -> (r: (usize, usize, usize, usize))
    ensures
        (r.0 as nat, r.1 as nat, r.2 as nat, r.3 as nat) == spec_status_counts(statuses@),
{
    let mut r: (usize, usize, usize, usize) = (0, 0, 0, 0);
    let mut i: usize = 0;
    while i < statuses.len()
        invariant
            i <= statuses.len(),
            (r.0 as nat, r.1 as nat, r.2 as nat, r.3 as nat) == spec_status_counts(
                statuses@.take(i as int),
            ),
            r.0 <= i && r.1 <= i && r.2 <= i && r.3 <= i,
        decreases statuses.len() - i,
    {
        assert(statuses@.take(i + 1).drop_last() == statuses@.take(i as int));
        let s = statuses[i];
        if s == ToolStatus::Done {
            r.0 = r.0 + 1;
        }
        if s == ToolStatus::Failed {
            r.1 = r.1 + 1;
        }
        if s == ToolStatus::Running {
            r.2 = r.2 + 1;
        }
        if s != ToolStatus::NotSelected {
            r.3 = r.3 + 1;
        }
        i += 1;
    }
    assert(statuses@.take(statuses.len() as int) == statuses@);
    r
}

/// Law: the chosen tools are exactly the tools whose box is checked, each
/// once and in catalogue order, so there are as many as checked boxes.
pub proof fn law_chosen_are_checked(checked: Seq<bool>)
    requires
        checked.len() <= TOOL_COUNT,
    ensures
        chosen_of(checked).len() == count_true(checked),
        forall|j: int|
            0 <= j < chosen_of(checked).len() ==> {
                let t = #[trigger] chosen_of(checked)[j];
                t.spec_index() < checked.len() && checked[t.spec_index() as int]
            },
        forall|a: int, b: int|
            0 <= a < b < chosen_of(checked).len() ==> (#[trigger] chosen_of(checked)[a]).spec_index()
                < (#[trigger] chosen_of(checked)[b]).spec_index(),
        forall|i: int| 0 <= i < checked.len() && checked[i] ==> chosen_of(checked).contains(
            #[trigger] Tool::spec_at(i),
        ),
    decreases checked.len(),
{
    if checked.len() > 0 {
        let c = checked.drop_last();
        law_chosen_are_checked(c);
        let prev = chosen_of(c);
        let n = checked.len() - 1;
        let cur = chosen_of(checked);
        crate::tool::law_index_round_trip(Tool::spec_at(n), n);
        assert forall|j: int| 0 <= j < cur.len() implies {
            let t = #[trigger] cur[j];
            t.spec_index() < checked.len() && checked[t.spec_index() as int]
        } by {
            if j < prev.len() {
                assert(cur[j] == prev[j]);
                assert(checked[prev[j].spec_index() as int] == c[prev[j].spec_index() as int]);
            }
        }
        assert forall|a: int, b: int| 0 <= a < b < cur.len() implies (#[trigger] cur[a]).spec_index()
            < (#[trigger] cur[b]).spec_index() by {
            assert(cur[a] == prev[a]);
            if b < prev.len() {
                assert(cur[b] == prev[b]);
            }
        }
        assert forall|i: int| 0 <= i < checked.len() && checked[i] implies cur.contains(
            #[trigger] Tool::spec_at(i),
        ) by {
            if i < n {
                assert(c[i]);
                assert(prev.contains(Tool::spec_at(i)));
                let w = choose|w: int| 0 <= w < prev.len() && prev[w] == Tool::spec_at(i);
                assert(cur[w] == Tool::spec_at(i));
            } else {
                assert(cur[cur.len() - 1] == Tool::spec_at(i));
            }
        }
    }
}

} // verus!
