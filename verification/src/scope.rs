use vstd::prelude::*;
use crate::dept::{
    closure_set, contains_id, dept_ids_distinct, dept_map, get_dept_children, DeptDto,
};
use crate::error::AppError;
use crate::role::{DataScope, RoleSmallDto};
use crate::user::SysUserDTO;

verus! {

/// One row of the role-to-department link table.
#[derive(Debug, Clone, Copy)]
pub struct RoleDeptLink {
    pub role_id: i64,
    pub dept_id: i64,
}

/// The departments explicitly linked to a role.
pub open spec fn seed_set(links: Seq<RoleDeptLink>, role_id: i64) -> Set<i64> {
    Set::new(
        |d: i64|
            exists|i: int|
                0 <= i < links.len() && (#[trigger] links[i]).role_id == role_id
                    && links[i].dept_id == d,
    )
}

/// The department id carried by the user, if any.
pub open spec fn user_dept_id(user: SysUserDTO) -> Option<i64> {
    match user.dept {
        Some(d) => Some(d.id),
        None => None,
    }
}

/// What one role contributes to the data scope: its own department for
/// `ThisLevel`, the linked departments with their enabled descendants
/// for `Customize`, nothing otherwise.
pub open spec fn role_contrib(
    role: RoleSmallDto,
    user_dept: Option<i64>,
    links: Seq<RoleDeptLink>,
    dm: Map<i64, (Option<i64>, bool)>,
) -> Set<i64> {
    match role.data_scope {
        Some(DataScope::ThisLevel) => match user_dept {
            Some(d) => Set::empty().insert(d),
            None => Set::empty(),
        },
        Some(DataScope::Customize) => seed_set(links, role.id).union(
            closure_set(dm, seed_set(links, role.id)),
        ),
        _ => Set::empty(),
    }
}

/// The resolver's accumulation from role `k` on: roles are processed
/// in order, an `All` role stops the iteration keeping what has been
/// gathered so far, and a role without a recognized scope fails the
/// whole resolution (`None`).
pub open spec fn resolve_from(
    roles: Seq<RoleSmallDto>,
    user_dept: Option<i64>,
    links: Seq<RoleDeptLink>,
    dm: Map<i64, (Option<i64>, bool)>,
    k: int,
    acc: Set<i64>,
) -> Option<Set<i64>>
    decreases roles.len() - k,
{
    if k < 0 || k >= roles.len() {
        Some(acc)
    } else {
        match roles[k].data_scope {
            None => None,
            Some(DataScope::All) => Some(acc),
            _ => resolve_from(
                roles,
                user_dept,
                links,
                dm,
                k + 1,
                acc.union(role_contrib(roles[k], user_dept, links, dm)),
            ),
        }
    }
}

/// The whole resolution: every role from the first, starting empty.
pub open spec fn resolve_spec(
    roles: Seq<RoleSmallDto>,
    user_dept: Option<i64>,
    links: Seq<RoleDeptLink>,
    dm: Map<i64, (Option<i64>, bool)>,
) -> Option<Set<i64>> {
    resolve_from(roles, user_dept, links, dm, 0, Set::empty())
}

fn push_unique(v: &mut Vec<i64>, x: i64)
    requires
        old(v)@.no_duplicates(),
    ensures
        final(v)@.no_duplicates(),
        final(v)@.to_set() == old(v)@.to_set().insert(x),
{
    if !contains_id(v, x) {
        v.push(x);
        proof {
            let ghost s = old(v)@;
            assert forall|y: i64| #[trigger] v@.contains(y) implies s.to_set().insert(x).contains(
                y,
            ) by {
                let a = choose|a: int| 0 <= a < v@.len() && v@[a] == y;
                if a < s.len() {
                    assert(s[a] == y);
                }
            }
            assert forall|y: i64| #[trigger] s.to_set().insert(x).contains(y) implies v@.contains(
                y,
            ) by {
                if y == x {
                    assert(v@[v@.len() - 1] == y);
                } else {
                    let a = choose|a: int| 0 <= a < s.len() && s[a] == y;
                    assert(v@[a] == y);
                }
            }
            assert(v@.to_set() =~= s.to_set().insert(x));
            assert forall|a: int, b: int| 0 <= a < b < v@.len() implies v@[a] != v@[b] by {
                if b < v@.len() - 1 {
                    assert(s[a] != s[b]);
                } else {
                    assert(s[a] == v@[a]);
                    assert(!s.contains(x));
                }
            }
        }
    } else {
        proof {
            assert(v@.to_set() =~= v@.to_set().insert(x));
        }
    }
}

proof fn lemma_subrange_to_set_step(s: Seq<i64>, i: int)
    requires
        0 <= i < s.len(),
    ensures
        s.subrange(0, i + 1).to_set() == s.subrange(0, i).to_set().insert(s[i]),
{
    let a = s.subrange(0, i + 1);
    let b = s.subrange(0, i);
    let x = s[i];
    assert forall|y: i64| #[trigger] a.to_set().contains(y) implies b.to_set().insert(x).contains(
        y,
    ) by {
        let c = choose|c: int| 0 <= c < a.len() && a[c] == y;
        if c < i {
            assert(b[c] == y);
        }
    }
    assert forall|y: i64| #[trigger] b.to_set().insert(x).contains(y) implies a.to_set().contains(
        y,
    ) by {
        if y == x {
            assert(a[i] == y);
        } else {
            let c = choose|c: int| 0 <= c < b.len() && b[c] == y;
            assert(a[c] == y);
        }
    }
    assert(a.to_set() =~= b.to_set().insert(x));
}

/// Adds to `dept_ids` the departments a `Customize` role grants: the
/// ids linked to the role and every enabled descendant of them.
pub fn get_customize(
    dept_ids: &mut Vec<i64>,
    role_id: i64,
    links: &Vec<RoleDeptLink>,
    table: &Vec<DeptDto>,
)
    requires
        old(dept_ids)@.no_duplicates(),
        dept_ids_distinct(table@),
    ensures
        final(dept_ids)@.no_duplicates(),
        final(dept_ids)@.to_set() == old(dept_ids)@.to_set().union(
            seed_set(links@, role_id),
        ).union(closure_set(dept_map(table@), seed_set(links@, role_id))),
{
    let mut seeds: Vec<i64> = Vec::new();
    proof {
        assert(seeds@.to_set() =~= seed_set(links@.subrange(0, 0), role_id));
    }
    let mut i: usize = 0;
    while i < links.len()
        invariant
            i <= links@.len(),
            seeds@.no_duplicates(),
            seeds@.to_set() == seed_set(links@.subrange(0, i as int), role_id),
        decreases links@.len() - i,
    {
        let ghost pre = seeds@.to_set();
        if links[i].role_id == role_id {
            push_unique(&mut seeds, links[i].dept_id);
        }
        proof {
            let sub = links@.subrange(0, i + 1);
            assert forall|d: i64| #[trigger] seeds@.to_set().contains(d) implies seed_set(
                sub,
                role_id,
            ).contains(d) by {
                if pre.contains(d) {
                    let c = choose|c: int|
                        0 <= c < i && (#[trigger] links@.subrange(0, i as int)[c]).role_id
                            == role_id && links@.subrange(0, i as int)[c].dept_id == d;
                    assert(sub[c].role_id == role_id && sub[c].dept_id == d);
                } else {
                    assert(sub[i as int].role_id == role_id && sub[i as int].dept_id == d);
                }
            }
            assert forall|d: i64| #[trigger] seed_set(sub, role_id).contains(d) implies
                seeds@.to_set().contains(d) by {
                let c = choose|c: int|
                    0 <= c < sub.len() && (#[trigger] sub[c]).role_id == role_id && sub[c].dept_id
                        == d;
                if c < i {
                    assert(links@.subrange(0, i as int)[c].role_id == role_id);
                    assert(links@.subrange(0, i as int)[c].dept_id == d);
                    assert(pre.contains(d));
                }
            }
            assert(seeds@.to_set() =~= seed_set(sub, role_id));
        }
        i += 1;
    }
    proof {
        assert(links@.subrange(0, links@.len() as int) =~= links@);
    }
    let ghost sseed = seed_set(links@, role_id);
    let ghost base = dept_ids@.to_set();
    proof {
        assert(dept_ids@.to_set() =~= base.union(seeds@.subrange(0, 0).to_set()));
    }
    let mut i: usize = 0;
    while i < seeds.len()
        invariant
            i <= seeds@.len(),
            dept_ids@.no_duplicates(),
            sseed == seeds@.to_set(),
            dept_ids@.to_set() == base.union(seeds@.subrange(0, i as int).to_set()),
        decreases seeds@.len() - i,
    {
        push_unique(dept_ids, seeds[i]);
        proof {
            lemma_subrange_to_set_step(seeds@, i as int);
            assert(dept_ids@.to_set() =~= base.union(seeds@.subrange(0, i + 1).to_set()));
        }
        i += 1;
    }
    let children = get_dept_children(table, &seeds);
    let ghost mid = dept_ids@.to_set();
    proof {
        assert(dept_ids@.to_set() =~= mid.union(children@.subrange(0, 0).to_set()));
    }
    let mut i: usize = 0;
    while i < children.len()
        invariant
            i <= children@.len(),
            dept_ids@.no_duplicates(),
            dept_ids@.to_set() == mid.union(children@.subrange(0, i as int).to_set()),
        decreases children@.len() - i,
    {
        push_unique(dept_ids, children[i]);
        proof {
            lemma_subrange_to_set_step(children@, i as int);
            assert(dept_ids@.to_set() =~= mid.union(children@.subrange(0, i + 1).to_set()));
        }
        i += 1;
    }
    proof {
        assert(seeds@.subrange(0, seeds@.len() as int) =~= seeds@);
        assert(children@.subrange(0, children@.len() as int) =~= children@);
        assert(dept_ids@.to_set() =~= base.union(sseed).union(
            closure_set(dept_map(table@), sseed),
        ));
    }
}

/// The set of departments the user may query, resolved from their
/// roles in the order given: `ThisLevel` adds the user's department,
/// `Customize` the linked departments with their enabled descendants;
/// an `All` role stops the iteration keeping what earlier roles
/// gathered; a role whose scope tag was not recognized fails with a
/// data-integrity error, exactly then.
pub fn get_dept_ids(
    user: &SysUserDTO,
    roles: &Vec<RoleSmallDto>,
    links: &Vec<RoleDeptLink>,
    table: &Vec<DeptDto>,
) -> (r: Result<Vec<i64>, AppError>)
    requires
        dept_ids_distinct(table@),
    ensures
        match r {
            Ok(v) => {
                &&& resolve_spec(roles@, user_dept_id(*user), links@, dept_map(table@)) == Some(
                    v@.to_set(),
                )
                &&& v@.no_duplicates()
            },
            Err(e) => {
                &&& resolve_spec(roles@, user_dept_id(*user), links@, dept_map(table@)) is None
                &&& e matches AppError::InternalServerError(m) && m@ == "data scope corrupt"@
            },
        },
{
    let ghost dm = dept_map(table@);
    let ghost ud = user_dept_id(*user);
    let mut dept_ids: Vec<i64> = Vec::new();
    proof {
        assert(dept_ids@.to_set() =~= Set::<i64>::empty());
    }
    let mut k: usize = 0;
    while k < roles.len()
        invariant
            dept_ids_distinct(table@),
            dm == dept_map(table@),
            ud == user_dept_id(*user),
            k <= roles@.len(),
            dept_ids@.no_duplicates(),
            resolve_from(roles@, ud, links@, dm, k as int, dept_ids@.to_set()) == resolve_spec(
                roles@,
                ud,
                links@,
                dm,
            ),
        decreases roles@.len() - k,
    {
        let ghost acc = dept_ids@.to_set();
        match roles[k].data_scope {
            None => {
                return Err(AppError::InternalServerError(String::from_str("data scope corrupt")));
            },
            Some(DataScope::All) => {
                return Ok(dept_ids);
            },
            Some(DataScope::ThisLevel) => {
                match &user.dept {
                    Some(d) => {
                        push_unique(&mut dept_ids, d.id);
                        proof {
                            assert(dept_ids@.to_set() =~= acc.union(
                                role_contrib(roles@[k as int], ud, links@, dm),
                            ));
                        }
                    },
                    None => {
                        proof {
                            assert(dept_ids@.to_set() =~= acc.union(
                                role_contrib(roles@[k as int], ud, links@, dm),
                            ));
                        }
                    },
                }
            },
            Some(DataScope::Customize) => {
                get_customize(&mut dept_ids, roles[k].id, links, table);
                proof {
                    assert(dept_ids@.to_set() =~= acc.union(
                        role_contrib(roles@[k as int], ud, links@, dm),
                    ));
                }
            },
        }
        k += 1;
    }
    Ok(dept_ids)
}

/// All roles have a recognized scope and none is `All`.
pub open spec fn no_all_scope(roles: Seq<RoleSmallDto>) -> bool {
    forall|k: int|
        0 <= k < roles.len() ==> ((#[trigger] roles[k]).data_scope == Some(DataScope::ThisLevel)
            || roles[k].data_scope == Some(DataScope::Customize))
}

/// The union of what the roles from `k` on contribute, with no regard
/// to order.
pub open spec fn suffix_union(
    roles: Seq<RoleSmallDto>,
    user_dept: Option<i64>,
    links: Seq<RoleDeptLink>,
    dm: Map<i64, (Option<i64>, bool)>,
    k: int,
) -> Set<i64> {
    Set::new(
        |d: i64|
            exists|j: int|
                k <= j < roles.len() && role_contrib(
                    #[trigger] roles[j],
                    user_dept,
                    links,
                    dm,
                ).contains(d),
    )
}

proof fn lemma_resolve_is_union(
    roles: Seq<RoleSmallDto>,
    user_dept: Option<i64>,
    links: Seq<RoleDeptLink>,
    dm: Map<i64, (Option<i64>, bool)>,
    k: int,
    acc: Set<i64>,
)
    requires
        no_all_scope(roles),
        0 <= k,
    ensures
        resolve_from(roles, user_dept, links, dm, k, acc) == Some(
            acc.union(suffix_union(roles, user_dept, links, dm, k)),
        ),
    decreases roles.len() - k,
{
    if k >= roles.len() {
        assert(acc.union(suffix_union(roles, user_dept, links, dm, k)) =~= acc);
    } else {
        let c = role_contrib(roles[k], user_dept, links, dm);
        lemma_resolve_is_union(roles, user_dept, links, dm, k + 1, acc.union(c));
        assert(acc.union(c).union(suffix_union(roles, user_dept, links, dm, k + 1)) =~= acc.union(
            suffix_union(roles, user_dept, links, dm, k),
        )) by {
            assert forall|d: i64|
                suffix_union(roles, user_dept, links, dm, k).contains(d) && !c.contains(d) implies
                suffix_union(roles, user_dept, links, dm, k + 1).contains(d) by {
                let j = choose|j: int|
                    k <= j < roles.len() && role_contrib(
                        #[trigger] roles[j],
                        user_dept,
                        links,
                        dm,
                    ).contains(d);
                assert(j != k);
            }
        }
    }
}

/// Order independence without `All`: when every role is `ThisLevel` or
/// `Customize`, the resolved set depends only on which roles the user
/// has, not on the order they are iterated in.
pub proof fn lemma_scope_order_independent(
    roles1: Seq<RoleSmallDto>,
    roles2: Seq<RoleSmallDto>,
    user_dept: Option<i64>,
    links: Seq<RoleDeptLink>,
    dm: Map<i64, (Option<i64>, bool)>,
)
    requires
        no_all_scope(roles1),
        no_all_scope(roles2),
        roles1.to_set() == roles2.to_set(),
    ensures
        resolve_spec(roles1, user_dept, links, dm) == resolve_spec(roles2, user_dept, links, dm),
{
    lemma_resolve_is_union(roles1, user_dept, links, dm, 0, Set::empty());
    lemma_resolve_is_union(roles2, user_dept, links, dm, 0, Set::empty());
    assert forall|d: i64| suffix_union(roles1, user_dept, links, dm, 0).contains(d) implies
        suffix_union(roles2, user_dept, links, dm, 0).contains(d) by {
        let j = choose|j: int|
            0 <= j < roles1.len() && role_contrib(
                #[trigger] roles1[j],
                user_dept,
                links,
                dm,
            ).contains(d);
        assert(roles1.to_set().contains(roles1[j]));
        assert(roles2.contains(roles1[j]));
        let a = choose|a: int| 0 <= a < roles2.len() && roles2[a] == roles1[j];
        assert(role_contrib(roles2[a], user_dept, links, dm).contains(d));
    }
    assert forall|d: i64| suffix_union(roles2, user_dept, links, dm, 0).contains(d) implies
        suffix_union(roles1, user_dept, links, dm, 0).contains(d) by {
        let j = choose|j: int|
            0 <= j < roles2.len() && role_contrib(
                #[trigger] roles2[j],
                user_dept,
                links,
                dm,
            ).contains(d);
        assert(roles2.to_set().contains(roles2[j]));
        assert(roles1.contains(roles2[j]));
        let a = choose|a: int| 0 <= a < roles1.len() && roles1[a] == roles2[j];
        assert(role_contrib(roles1[a], user_dept, links, dm).contains(d));
    }
    assert(Set::empty().union(suffix_union(roles1, user_dept, links, dm, 0)) =~= Set::empty().union(
        suffix_union(roles2, user_dept, links, dm, 0),
    ));
}

} // verus!
