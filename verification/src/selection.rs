//! Moving and repairing the highlighted row of a palette list.
use vstd::prelude::*;
use crate::model::PaletteItem;

verus! {

/// Positions of the selectable items, in order.
pub open spec fn selectable_positions(items: Seq<PaletteItem>) -> Seq<int>
    decreases items.len(),
{
    if items.len() == 0 {
        Seq::empty()
    } else {
        let rest = selectable_positions(items.drop_last());
        if items.last().selectable {
            rest.push(items.len() - 1)
        } else {
            rest
        }
    }
}

/// Where `x` first stands in `s`.
pub open spec fn position_of(s: Seq<int>, x: int) -> Option<int>
    decreases s.len(),
{
    if s.len() == 0 {
        None
    } else {
        match position_of(s.drop_last(), x) {
            Some(k) => Some(k),
            None => if s.last() == x {
                Some(s.len() - 1)
            } else {
                None
            },
        }
    }
}

/// The selectable item `delta` steps away from `current` among the
/// selectable items, wrapping around at both ends; a `current` that is not
/// selectable counts as the first selectable item. Zero when nothing is
/// selectable.
pub open spec fn next_selectable_spec(items: Seq<PaletteItem>, current: int, delta: int) -> int {
    let sel = selectable_positions(items);
    if sel.len() == 0 {
        0
    } else {
        let ci = match position_of(sel, current) {
            Some(k) => k,
            None => 0,
        };
        sel[(ci + delta) % (sel.len() as int)]
    }
}

/// The index of the selectable item `delta` steps from `current`.
pub fn next_selectable(items: &[PaletteItem], current: usize, delta: isize) -> (out: usize)
    requires
        items@.len() <= isize::MAX,
        position_of(selectable_positions(items@), current as int) matches Some(k) ==> k + delta
            <= isize::MAX,
        delta <= isize::MAX,
    ensures
        out == next_selectable_spec(items@, current as int, delta as int),
{
    let mut selectable: Vec<usize> = Vec::new();
    let mut i: usize = 0;
    while i < items.len()
        invariant
            i <= items@.len(),
            items@.len() <= isize::MAX,
            selectable@.map_values(|x: usize| x as int) == selectable_positions(items@.take(i as int)),
            forall|k: int| 0 <= k < selectable@.len() ==> #[trigger] selectable@[k] < i,
            selectable@.len() <= i,
        decreases items@.len() - i,
    {
        proof {
            assert(items@.take(i + 1).drop_last() == items@.take(i as int));
        }
        let ghost prev = selectable@;
        if items[i].selectable {
            selectable.push(i);
            proof {
                assert(selectable@.map_values(|x: usize| x as int) =~= prev.map_values(
                    |x: usize| x as int,
                ).push(i as int));
            }
        }
        i = i + 1;
    }
    proof {
        assert(items@.take(items@.len() as int) == items@);
    }
    let ghost sel = selectable_positions(items@);
    if selectable.len() == 0 {
        return 0;
    }
    let ci: usize = match find_position(&selectable, current) {
        Some(k) => k,
        None => 0,
    };
    let len = selectable.len();
    let start = ci as isize;
    let x = start + delta;
    let idx: usize = if x >= 0 {
        (x as usize) % len
    } else {
        let m = ((-(x + 1)) as usize) % len;
        proof {
            let xi = x as int;
            let li = len as int;
            let mi = m as int;
            assert(mi == (-xi - 1) % li);
            assert(0 <= mi < li);
            assert(xi % li == li - 1 - mi) by (nonlinear_arith)
                requires
                    mi == (-xi - 1) % li,
                    0 <= mi < li,
                    li > 0,
                    xi < 0,
            {
                let q = (-xi - 1) / li;
                assert(-xi - 1 == q * li + mi);
                assert(xi == (-q - 1) * li + (li - 1 - mi));
            }
        }
        len - 1 - m
    };
    selectable[idx]
}

fn find_position(sel: &Vec<usize>, x: usize) -> (out: Option<usize>)
    ensures
        opt_int(out) == position_of(sel@.map_values(|v: usize| v as int), x as int),
        out matches Some(k) ==> k < sel@.len(),
{
    let ghost s = sel@.map_values(|v: usize| v as int);
    let mut k: usize = 0;
    while k < sel.len()
        invariant
            s == sel@.map_values(|v: usize| v as int),
            k <= sel@.len(),
            position_of(s.take(k as int), x as int) is None,
        decreases sel@.len() - k,
    {
        proof {
            assert(s.take(k + 1).drop_last() == s.take(k as int));
        }
        if sel[k] == x {
            proof {
                lemma_position_of_prefix(s, k + 1, x as int);
            }
            return Some(k);
        }
        k = k + 1;
    }
    proof {
        assert(s.take(sel@.len() as int) == s);
    }
    None
}

/// An optional index as an optional integer.
pub open spec fn opt_int(value: Option<usize>) -> Option<int> {
    match value {
        Some(v) => Some(v as int),
        None => None,
    }
}

proof fn lemma_position_of_prefix(s: Seq<int>, k: int, x: int)
    requires
        0 < k <= s.len(),
        s[k - 1] == x,
        position_of(s.take(k - 1), x) is None,
    ensures
        position_of(s, x) == Some(k - 1),
    decreases s.len(),
{
    assert(s.take(k).drop_last() == s.take(k - 1));
    if k < s.len() {
        assert(s.drop_last().take(k) == s.take(k));
        assert(s.drop_last().take(k - 1) == s.take(k - 1));
        lemma_position_of_prefix(s.drop_last(), k, x);
    } else {
        assert(s.take(k) == s);
        assert(s.drop_last() == s.take(k - 1));
    }
}

/// `current` when it names a selectable item; otherwise the first selectable
/// item; zero when there is none.
pub open spec fn normalize_selection_spec(items: Seq<PaletteItem>, current: int) -> int {
    if items.len() == 0 {
        0
    } else if 0 <= current < items.len() && items[current].selectable {
        current
    } else {
        let sel = selectable_positions(items);
        if sel.len() == 0 {
            0
        } else {
            sel[0]
        }
    }
}

proof fn lemma_selectable_positions(items: Seq<PaletteItem>, i: int)
    requires
        0 <= i <= items.len(),
    ensures
        forall|k: int|
            0 <= k < selectable_positions(items.take(i)).len() ==> 0 <= #[trigger] selectable_positions(
                items.take(i),
            )[k] < i && items[selectable_positions(items.take(i))[k]].selectable,
        (forall|j: int| 0 <= j < i ==> !items[j].selectable) ==> selectable_positions(items.take(i)).len() == 0,
        (exists|j: int| 0 <= j < i && items[j].selectable) ==> selectable_positions(items.take(i)).len() > 0,
    decreases i,
{
    if i > 0 {
        lemma_selectable_positions(items, i - 1);
        assert(items.take(i).drop_last() == items.take(i - 1));
        if exists|j: int| 0 <= j < i && items[j].selectable {
            let j = choose|j: int| 0 <= j < i && items[j].selectable;
            if j < i - 1 {
            }
        }
    } else {
    }
}

proof fn lemma_first_selectable(items: Seq<PaletteItem>, j: int)
    requires
        0 <= j < items.len(),
        items[j].selectable,
        forall|m: int| 0 <= m < j ==> !items[m].selectable,
    ensures
        selectable_positions(items).len() > 0,
        selectable_positions(items)[0] == j,
    decreases items.len(),
{
    if j < items.len() - 1 {
        assert(items.drop_last()[j] == items[j]);
        lemma_first_selectable(items.drop_last(), j);
    } else {
        assert(items.take(j) == items.drop_last());
        lemma_selectable_positions(items, j);
    }
}

/// A valid selection for `items`.
pub fn normalize_selection(items: &[PaletteItem], current: usize) -> (out: usize)
    ensures
        out == normalize_selection_spec(items@, current as int),
{
    if items.len() == 0 {
        return 0;
    }
    if current < items.len() && items[current].selectable {
        return current;
    }
    let mut j: usize = 0;
    while j < items.len()
        invariant
            j <= items@.len(),
            items@.len() > 0,
            !(current < items@.len() && items@[current as int].selectable),
            forall|m: int| 0 <= m < j ==> !items@[m].selectable,
        decreases items@.len() - j,
    {
        if items[j].selectable {
            proof {
                lemma_first_selectable(items@, j as int);
            }
            return j;
        }
        j = j + 1;
    }
    proof {
        assert(items@.take(items@.len() as int) == items@);
        lemma_selectable_positions(items@, items@.len() as int);
    }
    0
}

/// The first row to show: zero while the list fits or the selection is in
/// the top half of the view; otherwise the row that centres the selection,
/// but never past the last full page.
pub open spec fn list_offset_spec(selected: int, item_count: int, list_rows: int) -> int {
    if item_count <= list_rows || selected < list_rows / 2 {
        0
    } else {
        let max_offset = if item_count >= list_rows {
            item_count - list_rows
        } else {
            0
        };
        let centred = if selected >= list_rows / 2 {
            selected - list_rows / 2
        } else {
            0
        };
        if centred <= max_offset {
            centred
        } else {
            max_offset
        }
    }
}

/// The scroll offset of the list.
pub fn list_offset(selected: usize, item_count: usize, list_rows: usize) -> (out: usize)
    ensures
        out == list_offset_spec(selected as int, item_count as int, list_rows as int),
{
    if item_count <= list_rows || selected < list_rows / 2 {
        return 0;
    }
    let max_offset = item_count.saturating_sub(list_rows);
    let centred = selected.saturating_sub(list_rows / 2);
    if centred <= max_offset {
        centred
    } else {
        max_offset
    }
}

/// There are no more selectable positions than items.
pub proof fn lemma_selectable_len(items: Seq<PaletteItem>)
    ensures
        selectable_positions(items).len() <= items.len(),
    decreases items.len(),
{
    if items.len() > 0 {
        lemma_selectable_len(items.drop_last());
    }
}

/// A position found in `s` is an index of `s`.
pub proof fn lemma_position_of_bound(s: Seq<int>, x: int)
    ensures
        position_of(s, x) matches Some(k) ==> 0 <= k < s.len(),
    decreases s.len(),
{
    if s.len() > 0 {
        lemma_position_of_bound(s.drop_last(), x);
    }
}

proof fn lemma_selectable_shape(items: Seq<PaletteItem>)
    ensures
        forall|k: int|
            0 <= k < selectable_positions(items).len() ==> 0 <= #[trigger] selectable_positions(
                items,
            )[k] < items.len() && items[selectable_positions(items)[k]].selectable,
        forall|a: int, b: int|
            0 <= a < b < selectable_positions(items).len() ==> #[trigger] selectable_positions(
                items,
            )[a] < #[trigger] selectable_positions(items)[b],
        forall|x: int|
            0 <= x < items.len() && #[trigger] items[x].selectable ==> exists|k: int|
                0 <= k < selectable_positions(items).len() && selectable_positions(items)[k] == x,
    decreases items.len(),
{
    if items.len() > 0 {
        let rest = items.drop_last();
        lemma_selectable_shape(rest);
        let sr = selectable_positions(rest);
        let s = selectable_positions(items);
        assert forall|k: int| 0 <= k < sr.len() implies #[trigger] rest[sr[k]] == items[sr[k]] by {}
        assert forall|x: int| 0 <= x < items.len() && #[trigger] items[x].selectable implies exists|k: int|
            0 <= k < s.len() && s[k] == x by {
            if x < items.len() - 1 {
                assert(rest[x] == items[x]);
                let k = choose|k: int| 0 <= k < sr.len() && sr[k] == x;
                assert(s[k] == x);
            } else {
                assert(s[s.len() - 1] == x);
            }
        }
    }
}

proof fn lemma_position_of_sorted(s: Seq<int>, k: int)
    requires
        0 <= k < s.len(),
        forall|a: int, b: int| 0 <= a < b < s.len() ==> #[trigger] s[a] < #[trigger] s[b],
    ensures
        position_of(s, s[k]) == Some(k),
    decreases s.len(),
{
    if k < s.len() - 1 {
        let d = s.drop_last();
        assert(d[k] == s[k]);
        lemma_position_of_sorted(d, k);
    } else {
        lemma_position_of_absent(s.drop_last(), s[k]);
    }
}

proof fn lemma_position_of_absent(s: Seq<int>, x: int)
    requires
        forall|a: int| 0 <= a < s.len() ==> #[trigger] s[a] < x,
    ensures
        position_of(s, x) is None,
    decreases s.len(),
{
    if s.len() > 0 {
        lemma_position_of_absent(s.drop_last(), x);
    }
}

/// Moving the selection always lands on a selectable row, whenever the
/// list has one.
pub proof fn law_move_lands_on_selectable(items: Seq<PaletteItem>, current: int, delta: int)
    requires
        exists|j: int| 0 <= j < items.len() && items[j].selectable,
    ensures
        0 <= next_selectable_spec(items, current, delta) < items.len(),
        items[next_selectable_spec(items, current, delta)].selectable,
{
    lemma_selectable_shape(items);
    let j = choose|j: int| 0 <= j < items.len() && items[j].selectable;
    assert(items[j].selectable);
    let sel = selectable_positions(items);
    assert(sel.len() > 0);
    lemma_position_of_bound(sel, current);
    let ci = match position_of(sel, current) {
        Some(k) => k,
        None => 0,
    };
    let idx = (ci + delta) % (sel.len() as int);
    assert(0 <= idx < sel.len());
    assert(sel[idx] == next_selectable_spec(items, current, delta));
}

/// Moving `delta` selectable rows and then `delta` back comes back to the
/// selectable row one started on, whatever the step.
pub proof fn law_step_and_back_returns(items: Seq<PaletteItem>, current: int, delta: int)
    requires
        0 <= current < items.len(),
        items[current].selectable,
    ensures
        next_selectable_spec(items, next_selectable_spec(items, current, delta), -delta) == current,
{
    lemma_selectable_shape(items);
    let sel = selectable_positions(items);
    let n = sel.len() as int;
    let ci = choose|k: int| 0 <= k < sel.len() && sel[k] == current;
    lemma_position_of_sorted(sel, ci);
    let moved = (ci + delta) % n;
    assert(0 <= moved < n);
    assert(sel[moved] == next_selectable_spec(items, current, delta));
    lemma_position_of_sorted(sel, moved);
    let q = (ci + delta) / n;
    vstd::arithmetic::div_mod::lemma_fundamental_div_mod(ci + delta, n);
    assert(moved - delta == n * (-q) + ci) by (nonlinear_arith)
        requires
            ci + delta == n * q + moved,
    ;
    vstd::arithmetic::div_mod::lemma_mod_multiples_vanish(-q, ci, n);
    vstd::arithmetic::div_mod::lemma_small_mod(ci as nat, n as nat);
    assert((moved + (-delta)) % n == ci);
}

/// A position found in `s` names an entry equal to what was looked for.
proof fn lemma_position_of_found(s: Seq<int>, x: int)
    ensures
        position_of(s, x) matches Some(k) ==> 0 <= k < s.len() && s[k] == x,
    decreases s.len(),
{
    if s.len() > 0 {
        lemma_position_of_found(s.drop_last(), x);
    }
}

/// Repairing the selection is moving it by zero rows: a selectable row
/// stays, anything else goes to the first selectable row, or to zero when
/// there is none.
pub proof fn law_normalize_is_zero_step(items: Seq<PaletteItem>, current: int)
    ensures
        normalize_selection_spec(items, current) == next_selectable_spec(items, current, 0),
{
    lemma_selectable_shape(items);
    let sel = selectable_positions(items);
    lemma_position_of_found(sel, current);
    if sel.len() > 0 {
        let n = sel.len() as int;
        if 0 <= current < items.len() && items[current].selectable {
            let ci = choose|k: int| 0 <= k < sel.len() && sel[k] == current;
            lemma_position_of_sorted(sel, ci);
            vstd::arithmetic::div_mod::lemma_small_mod(ci as nat, n as nat);
        } else {
            if position_of(sel, current) is Some {
                let k = position_of(sel, current)->0;
                assert(sel[k] == current);
            }
            vstd::arithmetic::div_mod::lemma_small_mod(0, n as nat);
        }
    } else if items.len() > 0 && 0 <= current < items.len() && items[current].selectable {
        assert(exists|k: int| 0 <= k < sel.len() && sel[k] == current);
    }
}

/// A repaired selection names a selectable row whenever the list has one,
/// and repairing it again changes nothing.
pub proof fn law_normalize_is_stable(items: Seq<PaletteItem>, current: int)
    ensures
        (exists|j: int| 0 <= j < items.len() && items[j].selectable) ==> {
            let r = normalize_selection_spec(items, current);
            0 <= r < items.len() && items[r].selectable
        },
        normalize_selection_spec(items, normalize_selection_spec(items, current))
            == normalize_selection_spec(items, current),
{
    lemma_selectable_shape(items);
    if exists|j: int| 0 <= j < items.len() && items[j].selectable {
        let j = choose|j: int| 0 <= j < items.len() && items[j].selectable;
        assert(items[j].selectable);
    }
}

/// The list scrolls so that the selected row is on screen, and a list
/// longer than the view never scrolls past its last full page.
pub proof fn law_offset_shows_selection(selected: int, item_count: int, list_rows: int)
    requires
        0 <= selected < item_count,
        list_rows >= 1,
    ensures
        0 <= list_offset_spec(selected, item_count, list_rows) <= selected,
        selected < list_offset_spec(selected, item_count, list_rows) + list_rows,
        item_count > list_rows ==> list_offset_spec(selected, item_count, list_rows) + list_rows
            <= item_count,
{
}

} // verus!
