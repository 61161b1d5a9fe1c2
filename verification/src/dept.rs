use vstd::prelude::*;
use vstd::seq_lib::*;
use vstd::set_lib::lemma_len_subset;

verus! {

/// A department row of the organizational forest.
#[derive(Debug)]
pub struct DeptDto {
    pub dept_id: i64,
    pub pid: Option<i64>,
    pub sub_count: i32,
    pub name: String,
    pub dept_sort: i32,
    pub enabled: bool,
    pub children: Vec<DeptDto>,
}

/// Every row carries its own id.
pub open spec fn dept_ids_distinct(s: Seq<DeptDto>) -> bool {
    forall|i: int, j: int|
        0 <= i < j < s.len() ==> (#[trigger] s[i]).dept_id != (#[trigger] s[j]).dept_id
}

/// The department table as a map from id to `(parent, enabled)`.
pub open spec fn dept_map(s: Seq<DeptDto>) -> Map<i64, (Option<i64>, bool)>
    decreases s.len(),
{
    if s.len() == 0 {
        Map::empty()
    } else {
        dept_map(s.drop_last()).insert(s.last().dept_id, (s.last().pid, s.last().enabled))
    }
}

pub proof fn lemma_dept_map_contains(s: Seq<DeptDto>, id: i64)
    ensures
        dept_map(s).contains_key(id) <==> exists|j: int|
            0 <= j < s.len() && (#[trigger] s[j]).dept_id == id,
    decreases s.len(),
{
    if s.len() > 0 {
        lemma_dept_map_contains(s.drop_last(), id);
        if dept_map(s).contains_key(id) {
            if s.last().dept_id == id {
                assert(s[s.len() - 1].dept_id == id);
            } else {
                let j = choose|j: int|
                    0 <= j < s.drop_last().len() && (#[trigger] s.drop_last()[j]).dept_id == id;
                assert(s[j].dept_id == id);
            }
        }
        if exists|j: int| 0 <= j < s.len() && (#[trigger] s[j]).dept_id == id {
            let j = choose|j: int| 0 <= j < s.len() && (#[trigger] s[j]).dept_id == id;
            if j < s.len() - 1 {
                assert(s.drop_last()[j].dept_id == id);
            }
        }
    }
}

pub proof fn lemma_dept_map_index(s: Seq<DeptDto>, j: int)
    requires
        dept_ids_distinct(s),
        0 <= j < s.len(),
    ensures
        dept_map(s).contains_key(s[j].dept_id),
        dept_map(s)[s[j].dept_id] == (s[j].pid, s[j].enabled),
    decreases s.len(),
{
    if j == s.len() - 1 {
    } else {
        assert(s.drop_last()[j] == s[j]);
        lemma_dept_map_index(s.drop_last(), j);
    }
}

pub proof fn lemma_dept_map_size(s: Seq<DeptDto>)
    ensures
        dept_map(s).dom().finite(),
        dept_map(s).dom().len() <= s.len(),
    decreases s.len(),
{
    if s.len() > 0 {
        lemma_dept_map_size(s.drop_last());
    }
}

/// Whether department `d` is reachable from the seed set along a chain
/// of at most `n + 1` child steps, every department on the chain
/// (including `d` itself) being enabled.
pub open spec fn in_closure_n(
    dm: Map<i64, (Option<i64>, bool)>,
    seeds: Set<i64>,
    d: i64,
    n: nat,
) -> bool
    decreases n,
{
    dm.contains_key(d) && dm[d].1 && match dm[d].0 {
        Some(p) => seeds.contains(p) || (n > 0 && in_closure_n(dm, seeds, p, (n - 1) as nat)),
        None => false,
    }
}

/// Whether department `d` is an enabled descendant of some seed,
/// reached through enabled departments only.
pub open spec fn in_closure(dm: Map<i64, (Option<i64>, bool)>, seeds: Set<i64>, d: i64) -> bool {
    exists|n: nat| in_closure_n(dm, seeds, d, n)
}

/// The department closure: every enabled descendant of the seeds whose
/// whole chain below the seed is enabled.
pub open spec fn closure_set(dm: Map<i64, (Option<i64>, bool)>, seeds: Set<i64>) -> Set<i64> {
    Set::new(|d: i64| in_closure(dm, seeds, d))
}

/// The walk never descends past a parent that is neither a seed nor an
/// enabled member of the closure itself: result of the sweep below.
spec fn frontier_closed(table: Seq<DeptDto>, seeds: Set<i64>, result: Seq<i64>) -> bool {
    forall|j: int|
        0 <= j < table.len() ==> match (#[trigger] table[j]).pid {
            Some(p) => (table[j].enabled && (seeds.contains(p) || result.contains(p)))
                ==> result.contains(table[j].dept_id),
            None => true,
        }
}

proof fn lemma_closure_found(table: Seq<DeptDto>, seeds: Set<i64>, result: Seq<i64>, d: i64, n: nat)
    requires
        dept_ids_distinct(table),
        frontier_closed(table, seeds, result),
        in_closure_n(dept_map(table), seeds, d, n),
    ensures
        result.contains(d),
    decreases n,
{
    let dm = dept_map(table);
    lemma_dept_map_contains(table, d);
    let j = choose|j: int| 0 <= j < table.len() && (#[trigger] table[j]).dept_id == d;
    lemma_dept_map_index(table, j);
    let p = dm[d].0->Some_0;
    if !seeds.contains(p) {
        lemma_closure_found(table, seeds, result, p, (n - 1) as nat);
    }
}

proof fn lemma_result_bound(table: Seq<DeptDto>, result: Seq<i64>)
    requires
        result.no_duplicates(),
        forall|x: i64| #[trigger] result.contains(x) ==> dept_map(table).contains_key(x),
    ensures
        result.len() <= table.len(),
{
    result.unique_seq_to_set();
    lemma_dept_map_size(table);
    assert(result.to_set().subset_of(dept_map(table).dom()));
    lemma_len_subset(result.to_set(), dept_map(table).dom());
}

pub(crate) fn contains_id(v: &Vec<i64>, x: i64) -> (r: bool)
    ensures
        r == v@.contains(x),
{
    let mut i: usize = 0;
    while i < v.len()
        invariant
            i <= v@.len(),
            forall|j: int| 0 <= j < i ==> v@[j] != x,
        decreases v@.len() - i,
    {
        if v[i] == x {
            return true;
        }
        i += 1;
    }
    false
}

/// All departments of `table` that are reachable from the seed ids
/// through enabled departments only: a disabled department neither
/// joins the result nor lets the walk descend beneath it.
///
/// The result lists each department once, in no promised order; its
/// set of ids is exactly the closure.
pub fn get_dept_children(table: &Vec<DeptDto>, seeds: &Vec<i64>) -> (r: Vec<i64>)
    requires
        dept_ids_distinct(table@),
    ensures
        r@.to_set() == closure_set(dept_map(table@), seeds@.to_set()),
        r@.no_duplicates(),
{
    let ghost dm = dept_map(table@);
    let ghost sset = seeds@.to_set();
    let mut result: Vec<i64> = Vec::new();
    let mut changed = true;
    while changed
        invariant
            dept_ids_distinct(table@),
            dm == dept_map(table@),
            sset == seeds@.to_set(),
            result@.no_duplicates(),
            result@.len() <= table@.len(),
            forall|x: i64| #[trigger] result@.contains(x) ==> in_closure(dm, sset, x),
            !changed ==> frontier_closed(table@, sset, result@),
        decreases table@.len() - result@.len(), (if changed {
            1int
        } else {
            0int
        }),
    {
        changed = false;
        let ghost pre = result@;
        let mut j: usize = 0;
        while j < table.len()
            invariant
                dept_ids_distinct(table@),
                dm == dept_map(table@),
                sset == seeds@.to_set(),
                j <= table@.len(),
                result@.no_duplicates(),
                result@.len() <= table@.len(),
                forall|x: i64| #[trigger] result@.contains(x) ==> in_closure(dm, sset, x),
                forall|x: i64| #[trigger] pre.contains(x) ==> result@.contains(x),
                pre.is_prefix_of(result@),
                pre.len() <= result@.len(),
                changed == (result@.len() > pre.len()),
                forall|a: int|
                    0 <= a < table@.len() ==> match (#[trigger] table@[a]).pid {
                        Some(p) => (a < j && table@[a].enabled && (sset.contains(p)
                            || pre.contains(p))) ==> result@.contains(table@[a].dept_id),
                        None => true,
                    },
            decreases table@.len() - j,
        {
            let row = &table[j];
            if row.enabled {
                if let Some(p) = row.pid {
                    if contains_id(seeds, p) || contains_id(&result, p) {
                        if !contains_id(&result, row.dept_id) {
                            let ghost before = result@;
                            proof {
                                lemma_dept_map_index(table@, j as int);
                                if !sset.contains(p) {
                                    let n = choose|n: nat| in_closure_n(dm, sset, p, n);
                                    assert(in_closure_n(dm, sset, row.dept_id, n + 1));
                                } else {
                                    assert(in_closure_n(dm, sset, row.dept_id, 0));
                                }
                            }
                            result.push(row.dept_id);
                            changed = true;
                            proof {
                                assert(result@ == before.push(row.dept_id));
                                assert forall|x: i64| #[trigger] result@.contains(x) implies
                                    in_closure(dm, sset, x) by {
                                    if x != row.dept_id {
                                        let a = choose|a: int|
                                            0 <= a < result@.len() && result@[a] == x;
                                        assert(a < before.len());
                                        assert(before[a] == x);
                                        assert(before.contains(x));
                                    }
                                }
                                assert forall|x: i64| #[trigger] before.contains(x) implies
                                    result@.contains(x) by {
                                    let a = choose|a: int| 0 <= a < before.len() && before[a] == x;
                                    assert(result@[a] == x);
                                }
                                assert forall|x: i64| #[trigger] result@.contains(x) implies
                                    dept_map(table@).contains_key(x) by {
                                    let n = choose|n: nat| in_closure_n(dm, sset, x, n);
                                }
                                lemma_result_bound(table@, result@);
                                assert(result@.contains(row.dept_id)) by {
                                    assert(result@[result@.len() - 1] == row.dept_id);
                                }
                                assert(pre.is_prefix_of(result@)) by {
                                    assert(result@.subrange(0, pre.len() as int)
                                        =~= before.subrange(0, pre.len() as int));
                                }
                            }
                        } else {
                            proof {
                                assert(result@.contains(row.dept_id));
                            }
                        }
                    }
                }
            }
            j += 1;
        }
        proof {
            if !changed {
                assert(result@.subrange(0, result@.len() as int) =~= result@);
                assert(result@ =~= pre);
            }
        }
    }
    proof {
        assert forall|d: i64| #[trigger] closure_set(dm, sset).contains(d) implies
            result@.to_set().contains(d) by {
            let n = choose|n: nat| in_closure_n(dm, sset, d, n);
            lemma_closure_found(table@, sset, result@, d, n);
        }
        assert(result@.to_set() =~= closure_set(dm, sset));
    }
    result
}

/// No disabled department ever contributes its own id: everything in
/// the closure is an enabled department of the table.
pub proof fn lemma_closure_only_enabled(
    dm: Map<i64, (Option<i64>, bool)>,
    seeds: Set<i64>,
    d: i64,
)
    requires
        closure_set(dm, seeds).contains(d),
    ensures
        dm.contains_key(d),
        dm[d].1,
{
    let n = choose|n: nat| in_closure_n(dm, seeds, d, n);
}

/// Disabling an ancestor prunes its descendants: a department whose
/// parent is not a seed and is disabled (or missing) is outside the
/// closure, however many enabled departments sit below it.
pub proof fn lemma_disabled_parent_prunes(
    dm: Map<i64, (Option<i64>, bool)>,
    seeds: Set<i64>,
    d: i64,
    p: i64,
)
    requires
        dm.contains_key(d),
        dm[d].0 == Some(p),
        !seeds.contains(p),
        dm.contains_key(p) ==> !dm[p].1,
    ensures
        !closure_set(dm, seeds).contains(d),
{
    assert forall|n: nat| !in_closure_n(dm, seeds, d, n) by {
        if in_closure_n(dm, seeds, d, n) {
            assert(n > 0 && in_closure_n(dm, seeds, p, (n - 1) as nat));
        }
    }
}

/// The department closure is a function of the table and the seeds
/// alone: two runs on the same input yield the same set of ids.
pub proof fn lemma_closure_runs_agree(
    dm: Map<i64, (Option<i64>, bool)>,
    seeds: Set<i64>,
    r1: Seq<i64>,
    r2: Seq<i64>,
)
    requires
        r1.to_set() == closure_set(dm, seeds),
        r2.to_set() == closure_set(dm, seeds),
    ensures
        r1.to_set() == r2.to_set(),
{
}

} // verus!
