use vstd::prelude::*;
use crate::user::SysUserDTO;

verus! {

/// Data-visibility scope a role grants.
///
/// The storage layer tags roles with free-form text; unknown tags are
/// rejected at the decoding boundary, so a role record in the core
/// carries either one of these values or nothing (see
/// [`RoleSmallDto`]).
#[derive(Debug, Clone, Copy, PartialEq, Eq, Structural)]
pub enum DataScope {
    /// Every department.
    All,
    /// The user's own department.
    ThisLevel,
    /// The departments linked to the role, with their enabled
    /// descendants.
    Customize,
}

impl DataScope {
    /// The scope for a storage tag; an unknown tag is rejected,
    /// exactly when it is none of the three.
    pub fn from_tag(tag: &str) -> (r: Option<DataScope>)
        ensures
            match r {
                Some(DataScope::All) => tag@ == "\u{5168}\u{90e8}"@,
                Some(DataScope::ThisLevel) => tag@ == "\u{672c}\u{7ea7}"@,
                Some(DataScope::Customize) => tag@ == "\u{81ea}\u{5b9a}\u{4e49}"@,
                None => tag@ != "\u{5168}\u{90e8}"@ && tag@ != "\u{672c}\u{7ea7}"@ && tag@
                    != "\u{81ea}\u{5b9a}\u{4e49}"@,
            },
    {
        let t = String::from_str(tag);
        if t == String::from_str("\u{5168}\u{90e8}") {
            Some(DataScope::All)
        } else if t == String::from_str("\u{672c}\u{7ea7}") {
            Some(DataScope::ThisLevel)
        } else if t == String::from_str("\u{81ea}\u{5b9a}\u{4e49}") {
            Some(DataScope::Customize)
        } else {
            None
        }
    }
}

/// A role as the data-scope resolver consumes it.
///
/// `data_scope` is `None` when the stored scope tag was not one of the
/// recognized values; the resolver reports that as a data-integrity
/// fault.
#[derive(Debug)]
pub struct RoleSmallDto {
    pub id: i64,
    pub name: String,
    pub level: i32,
    pub data_scope: Option<DataScope>,
}

/// The set of views of the strings in `s`.
pub open spec fn view_set(s: Seq<String>) -> Set<Seq<char>> {
    Set::new(|p: Seq<char>| exists|i: int| 0 <= i < s.len() && (#[trigger] s[i])@ == p)
}

/// The set of non-empty permission strings among the menu rows.
pub open spec fn perm_set(s: Seq<Option<String>>) -> Set<Seq<char>> {
    Set::new(
        |p: Seq<char>|
            p.len() != 0 && exists|i: int|
                0 <= i < s.len() && ((#[trigger] s[i]) matches Some(q) && q@ == p),
    )
}

/// No two strings of `s` read the same.
pub open spec fn views_distinct(s: Seq<String>) -> bool {
    forall|j: int, k: int| 0 <= j < k < s.len() ==> (#[trigger] s[j])@ != (#[trigger] s[k])@
}

fn contains_view(v: &Vec<String>, x: &String) -> (r: bool)
    ensures
        r == exists|j: int| 0 <= j < v@.len() && (#[trigger] v@[j])@ == x@,
{
    let mut i: usize = 0;
    while i < v.len()
        invariant
            i <= v@.len(),
            forall|j: int| 0 <= j < i ==> (#[trigger] v@[j])@ != x@,
        decreases v@.len() - i,
    {
        if v[i] == *x {
            return true;
        }
        i += 1;
    }
    false
}

/// The permissions granted to a user: administrators get the single
/// wildcard permission; anyone else gets the distinct non-empty
/// permission strings of the menus reachable through their roles.
pub fn map_to_granted_authorities(user: &SysUserDTO, menu_permissions: &Vec<Option<String>>) -> (r:
    Vec<String>)
    ensures
        user.is_admin ==> r@.len() == 1 && r@[0]@ == "admin"@,
        !user.is_admin ==> view_set(r@) == perm_set(menu_permissions@) && views_distinct(r@),
{
    if user.is_admin {
        let mut v: Vec<String> = Vec::new();
        v.push(String::from_str("admin"));
        return v;
    }
    let mut out: Vec<String> = Vec::new();
    let mut i: usize = 0;
    while i < menu_permissions.len()
        invariant
            i <= menu_permissions@.len(),
            views_distinct(out@),
            view_set(out@) == perm_set(menu_permissions@.subrange(0, i as int)),
        decreases menu_permissions@.len() - i,
    {
        let ghost pre = out@;
        match &menu_permissions[i] {
            Some(p) => {
                if !p.as_str().is_empty() && !contains_view(&out, p) {
                    out.push(p.clone());
                }
            },
            None => {},
        }
        proof {
            assert(menu_permissions@.subrange(0, i + 1).drop_last() =~= menu_permissions@.subrange(
                0,
                i as int,
            ));
            assert(menu_permissions@.subrange(0, i + 1).last() == menu_permissions@[i as int]);
            assert forall|p: Seq<char>|
                view_set(out@).contains(p) <==> perm_set(
                    menu_permissions@.subrange(0, i + 1),
                ).contains(p) by {
                if view_set(out@).contains(p) {
                    let j = choose|j: int| 0 <= j < out@.len() && (#[trigger] out@[j])@ == p;
                    if j < pre.len() {
                        assert(view_set(pre).contains(p));
                    }
                }
                if perm_set(menu_permissions@.subrange(0, i + 1)).contains(p) {
                    let j = choose|j: int|
                        0 <= j < i + 1 && ((#[trigger] menu_permissions@.subrange(0, i + 1)[j])
                            matches Some(q) && q@ == p);
                    if j < i {
                        assert(perm_set(menu_permissions@.subrange(0, i as int)).contains(p));
                        assert(view_set(pre).contains(p));
                        let a = choose|a: int| 0 <= a < pre.len() && (#[trigger] pre[a])@ == p;
                        assert(out@[a]@ == p);
                    } else {
                        assert(out@[out@.len() - 1]@ == p || exists|a: int|
                            0 <= a < pre.len() && (#[trigger] pre[a])@ == p);
                    }
                }
                if view_set(pre).contains(p) {
                    let a = choose|a: int| 0 <= a < pre.len() && (#[trigger] pre[a])@ == p;
                    assert(out@[a]@ == p);
                }
            }
            assert(view_set(out@) =~= perm_set(menu_permissions@.subrange(0, i + 1)));
        }
        i += 1;
    }
    proof {
        assert(menu_permissions@.subrange(0, menu_permissions@.len() as int) =~= menu_permissions@);
    }
    out
}

} // verus!
