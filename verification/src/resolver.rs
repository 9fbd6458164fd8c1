//! The resolver: pure computation from a snapshot of per-display space
//! metadata to the 1-based ordinal of the active space, or `-1` when the
//! active space cannot be determined.

use vstd::prelude::*;

verus! {

/// One space record as the window server reports it: the numeric
/// `ManagedSpaceID`, and whether the record carries a tiling/layout marker
/// (a window-tiling pseudo-space rather than a user-facing desktop).
#[derive(Clone, Copy, Debug, PartialEq, Eq, Structural)]
pub struct SpaceRecord {
    pub id: i32,
    pub tiling: bool,
}

/// One display's entry in the snapshot. Each field mirrors a key of the
/// per-display dictionary; a missing key is `None`, and a display with any
/// field missing is treated as malformed and skipped by the resolver.
#[derive(Clone, Debug)]
pub struct DisplayRecord {
    /// The display's identifier string.
    pub identifier: Option<String>,
    /// The numeric id of the space currently shown on this display.
    pub current_space_id: Option<i32>,
    /// The display's spaces, in the order the window server lists them.
    pub spaces: Option<Vec<SpaceRecord>>,
}

/// A display record with all three required fields present.
pub open spec fn wf_display(d: DisplayRecord) -> bool {
    d.identifier is Some && d.current_space_id is Some && d.spaces is Some
}

/// A well-formed display qualifies as the active display when its identifier
/// is the literal `"Main"` or equals the active-menu-bar display identifier.
pub open spec fn display_qualifies(d: DisplayRecord, active: Seq<char>) -> bool {
    wf_display(d) && (d.identifier->0@ == "Main"@ || d.identifier->0@ == active)
}

/// The ids of the non-tiling spaces of one space list, in order.
pub open spec fn real_ids_of_spaces(spaces: Seq<SpaceRecord>) -> Seq<i32>
    decreases spaces.len(),
{
    if spaces.len() == 0 {
        Seq::empty()
    } else {
        let rest = real_ids_of_spaces(spaces.drop_last());
        if spaces.last().tiling {
            rest
        } else {
            rest.push(spaces.last().id)
        }
    }
}

/// What one display contributes to the global numbering: its non-tiling
/// space ids, or nothing when the record is malformed.
pub open spec fn display_real_ids(d: DisplayRecord) -> Seq<i32> {
    if wf_display(d) {
        real_ids_of_spaces(d.spaces->0@)
    } else {
        Seq::empty()
    }
}

/// The global numbering sequence: each display's non-tiling space ids,
/// concatenated in display enumeration order.
pub open spec fn all_real_ids(displays: Seq<DisplayRecord>) -> Seq<i32>
    decreases displays.len(),
{
    if displays.len() == 0 {
        Seq::empty()
    } else {
        all_real_ids(displays.drop_last()) + display_real_ids(displays.last())
    }
}

/// The candidate active space id: the `current_space_id` of the last
/// qualifying display in enumeration order, or `-1` when none qualifies.
pub open spec fn active_space_id(displays: Seq<DisplayRecord>, active: Seq<char>) -> i32
    decreases displays.len(),
{
    if displays.len() == 0 {
        -1i32
    } else if display_qualifies(displays.last(), active) {
        displays.last().current_space_id->0
    } else {
        active_space_id(displays.drop_last(), active)
    }
}

/// The 0-based index of the first occurrence of `target` in `ids`, or `-1`.
pub open spec fn first_pos(ids: Seq<i32>, target: i32) -> int
    decreases ids.len(),
{
    if ids.len() == 0 {
        -1
    } else if ids[0] == target {
        0
    } else if first_pos(ids.drop_first(), target) == -1 {
        -1
    } else {
        1 + first_pos(ids.drop_first(), target)
    }
}

/// The 1-based position of the first occurrence of `target` in `ids`,
/// or `-1` when `target` does not occur.
pub open spec fn ordinal_in(ids: Seq<i32>, target: i32) -> int {
    if first_pos(ids, target) == -1 {
        -1
    } else {
        first_pos(ids, target) + 1
    }
}

/// What the resolver returns on a snapshot: `-1` when no display qualifies
/// (or a qualifying display reported the sentinel id), otherwise the 1-based
/// position of the active space id among the globally numbered real spaces,
/// or `-1` again when that id is not among them.
pub open spec fn resolve_ordinal(displays: Seq<DisplayRecord>, active: Seq<char>) -> int {
    let aid = active_space_id(displays, active);
    if aid == -1 {
        -1
    } else {
        ordinal_in(all_real_ids(displays), aid)
    }
}

/// A snapshot with no displays resolves to the sentinel `-1`.
pub proof fn lemma_empty_snapshot(active: Seq<char>)
    ensures
        resolve_ordinal(Seq::empty(), active) == -1,
{
}

/// When no display qualifies as active, the resolver returns `-1`.
pub proof fn lemma_no_qualifying_display(displays: Seq<DisplayRecord>, active: Seq<char>)
    requires
        forall|k: int| 0 <= k < displays.len() ==> !display_qualifies(displays[k], active),
    ensures
        active_space_id(displays, active) == -1,
        resolve_ordinal(displays, active) == -1,
    decreases displays.len(),
{
    if displays.len() > 0 {
        assert(!display_qualifies(displays[displays.len() - 1], active));
        assert(forall|k: int|
            0 <= k < displays.drop_last().len() ==> displays.drop_last()[k] == displays[k]);
        lemma_no_qualifying_display(displays.drop_last(), active);
    }
}

/// A tiling/layout pseudo-space is invisible to the numbering: inserting one
/// anywhere in a space list leaves the numbered id sequence unchanged, so
/// such spaces never receive an ordinal and never shift other spaces'
/// ordinals.
pub proof fn lemma_tiling_space_invisible(spaces: Seq<SpaceRecord>, k: int, s: SpaceRecord)
    requires
        0 <= k <= spaces.len(),
        s.tiling,
    ensures
        real_ids_of_spaces(spaces.insert(k, s)) == real_ids_of_spaces(spaces),
    decreases spaces.len(),
{
    let grown = spaces.insert(k, s);
    if k == spaces.len() {
        assert(grown.drop_last() =~= spaces);
        assert(grown.last() == s);
    } else {
        assert(grown.last() == spaces.last());
        assert(grown.drop_last() =~= spaces.drop_last().insert(k, s));
        lemma_tiling_space_invisible(spaces.drop_last(), k, s);
    }
}

/// Two snapshots that agree on the global numbering sequence and on the
/// candidate active space id resolve to the same ordinal, whatever the
/// arrangement of displays that produced them.
pub proof fn lemma_reorder_stable(
    displays1: Seq<DisplayRecord>,
    displays2: Seq<DisplayRecord>,
    active: Seq<char>,
)
    requires
        all_real_ids(displays1) == all_real_ids(displays2),
        active_space_id(displays1, active) == active_space_id(displays2, active),
    ensures
        resolve_ordinal(displays1, active) == resolve_ordinal(displays2, active),
{
}

/// Concatenating display sequences concatenates their numbering sequences:
/// the contribution of later displays stands after that of earlier ones.
pub proof fn lemma_all_real_ids_concat(displays1: Seq<DisplayRecord>, displays2: Seq<DisplayRecord>)
    ensures
        all_real_ids(displays1 + displays2) == all_real_ids(displays1) + all_real_ids(displays2),
    decreases displays2.len(),
{
    if displays2.len() == 0 {
        assert(displays1 + displays2 =~= displays1);
        assert(all_real_ids(displays1) + all_real_ids(displays2) =~= all_real_ids(displays1));
    } else {
        assert((displays1 + displays2).last() == displays2.last());
        assert((displays1 + displays2).drop_last() =~= displays1 + displays2.drop_last());
        lemma_all_real_ids_concat(displays1, displays2.drop_last());
        assert(all_real_ids(displays1) + all_real_ids(displays2.drop_last()) + display_real_ids(
            displays2.last(),
        ) =~= all_real_ids(displays1) + (all_real_ids(displays2.drop_last()) + display_real_ids(
            displays2.last(),
        )));
    }
}

/// `first_pos` either reports `-1` or a genuine index of the target.
proof fn lemma_first_pos_bounds(ids: Seq<i32>, target: i32)
    ensures
        first_pos(ids, target) == -1 || (0 <= first_pos(ids, target) < ids.len() && ids[first_pos(
            ids,
            target,
        )] == target),
    decreases ids.len(),
{
    if ids.len() > 0 && ids[0] != target {
        lemma_first_pos_bounds(ids.drop_first(), target);
    }
}

proof fn lemma_first_pos_prepend(earlier: Seq<i32>, ids: Seq<i32>, target: i32)
    requires
        forall|k: int| 0 <= k < earlier.len() ==> earlier[k] != target,
    ensures
        first_pos(earlier + ids, target) == if first_pos(ids, target) == -1 {
            -1int
        } else {
            earlier.len() + first_pos(ids, target)
        },
    decreases earlier.len(),
{
    if earlier.len() == 0 {
        assert(earlier + ids =~= ids);
    } else {
        let rest = earlier.drop_first();
        assert(earlier[0] != target);
        assert((earlier + ids)[0] == earlier[0]);
        assert((earlier + ids).drop_first() =~= rest + ids);
        assert(forall|k: int| 0 <= k < rest.len() ==> rest[k] == earlier[k + 1]);
        assert(forall|k: int| 0 <= k < rest.len() ==> rest[k] != target);
        lemma_first_pos_prepend(rest, ids, target);
        lemma_first_pos_bounds(ids, target);
    }
}

/// Ordinals shift exactly by the number of real spaces inserted earlier in
/// the numbering order: prepending a block of ids that does not contain the
/// target moves the target's ordinal up by the block's length, and removing
/// such a block moves it down again.
pub proof fn lemma_earlier_spaces_shift_ordinal(earlier: Seq<i32>, ids: Seq<i32>, target: i32)
    requires
        forall|k: int| 0 <= k < earlier.len() ==> earlier[k] != target,
    ensures
        ordinal_in(earlier + ids, target) == if ordinal_in(ids, target) == -1 {
            -1int
        } else {
            earlier.len() + ordinal_in(ids, target)
        },
{
    lemma_first_pos_prepend(earlier, ids, target);
    lemma_first_pos_bounds(ids, target);
    lemma_first_pos_bounds(earlier + ids, target);
}

/// The resolver is deterministic: any two resolutions of one unchanged
/// snapshot yield the same ordinal.
pub proof fn lemma_resolver_idempotent(
    displays: Seq<DisplayRecord>,
    active: Seq<char>,
    first_result: int,
    second_result: int,
)
    requires
        first_result == resolve_ordinal(displays, active),
        second_result == resolve_ordinal(displays, active),
    ensures
        first_result == second_result,
{
}

proof fn lemma_first_pos_found(ids: Seq<i32>, target: i32, k: int)
    requires
        0 <= k < ids.len(),
        ids[k] == target,
        forall|t: int| 0 <= t < k ==> ids[t] != target,
    ensures
        first_pos(ids, target) == k,
    decreases k,
{
    if k > 0 {
        assert(ids[0] != target);
        lemma_first_pos_found(ids.drop_first(), target, k - 1);
    }
}

proof fn lemma_first_pos_not_found(ids: Seq<i32>, target: i32)
    requires
        forall|t: int| 0 <= t < ids.len() ==> ids[t] != target,
    ensures
        first_pos(ids, target) == -1,
    decreases ids.len(),
{
    if ids.len() > 0 {
        assert(ids[0] != target);
        lemma_first_pos_not_found(ids.drop_first(), target);
    }
}

/// The resolver. Given the per-display snapshot and the identifier of the
/// display currently showing the menu bar, returns the 1-based ordinal of the
/// active space within the filtered, display-ordered numbering, or `-1` when
/// it cannot be determined.
pub fn compute_active_ordinal(displays: &Vec<DisplayRecord>, active_display: &String) -> (ordinal:
    i32)
    requires
        all_real_ids(displays@).len() < i32::MAX,
    ensures
        ordinal == resolve_ordinal(displays@, active_display@),
{
    let main_label: String = String::from_str("Main");
    let mut active_id: i32 = -1;
    let mut all_spaces: Vec<i32> = Vec::new();

    let n: usize = displays.len();
    let mut i: usize = 0;
    while i < n
        invariant
            n == displays@.len(),
            i <= n,
            main_label@ == "Main"@,
            all_spaces@ == all_real_ids(displays@.take(i as int)),
            active_id == active_space_id(displays@.take(i as int), active_display@),
            all_real_ids(displays@).len() < i32::MAX,
        decreases n - i,
    {
        let d = &displays[i];
        proof {
            assert(displays@.take(i + 1 as int).drop_last() =~= displays@.take(i as int));
            assert(displays@.take(i + 1 as int).last() == displays@[i as int]);
        }
        if d.identifier.is_some() && d.current_space_id.is_some() && d.spaces.is_some() {
            let ident: &String = d.identifier.as_ref().unwrap();
            if ident.eq(&main_label) || ident.eq(active_display) {
                active_id = *d.current_space_id.as_ref().unwrap();
            }

            let spaces: &Vec<SpaceRecord> = d.spaces.as_ref().unwrap();
            let m: usize = spaces.len();
            let mut j: usize = 0;
            while j < m
                invariant
                    m == spaces@.len(),
                    j <= m,
                    all_spaces@ == all_real_ids(displays@.take(i as int)) + real_ids_of_spaces(
                        spaces@.take(j as int),
                    ),
                decreases m - j,
            {
                proof {
                    assert(spaces@.take(j + 1 as int).drop_last() =~= spaces@.take(j as int));
                    assert(spaces@.take(j + 1 as int).last() == spaces@[j as int]);
                }
                if !spaces[j].tiling {
                    all_spaces.push(spaces[j].id);
                }
                j += 1;
            }
            proof {
                assert(spaces@.take(m as int) =~= spaces@);
                assert(all_spaces@ == all_real_ids(displays@.take(i + 1 as int)));
            }
        } else {
            proof {
                assert(all_spaces@ =~= all_real_ids(displays@.take(i + 1 as int)));
            }
        }
        i += 1;
    }
    proof {
        assert(displays@.take(n as int) =~= displays@);
    }

    if active_id == -1 {
        return -1;
    }

    let total: usize = all_spaces.len();
    let mut k: usize = 0;
    while k < total
        invariant
            total == all_spaces@.len(),
            k <= total,
            all_spaces@.len() < i32::MAX,
            all_spaces@ == all_real_ids(displays@),
            active_id == active_space_id(displays@, active_display@),
            active_id != -1,
            forall|t: int| 0 <= t < k ==> all_spaces@[t] != active_id,
        decreases total - k,
    {
        if all_spaces[k] == active_id {
            proof {
                lemma_first_pos_found(all_spaces@, active_id, k as int);
            }
            return (k as i32) + 1;
        }
        k += 1;
    }
    proof {
        lemma_first_pos_not_found(all_spaces@, active_id);
    }
    -1
}

} // verus!
