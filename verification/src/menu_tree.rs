use vstd::prelude::*;
use crate::menu::{menus_view, MenuDTO, MenuTreeV};

verus! {

/// Whether some record lists `id` as its parent.
pub open spec fn is_child_id(s: Seq<MenuTreeV>, id: i64) -> bool {
    exists|i: int| 0 <= i < s.len() && (#[trigger] s[i]).pid == Some(id)
}

/// Whether any record is an explicit root (no parent id).
pub open spec fn has_root(s: Seq<MenuTreeV>) -> bool {
    exists|i: int| 0 <= i < s.len() && (#[trigger] s[i]).pid is None
}

/// The records of `s` whose parent id is `id`, in order.
pub open spec fn children_of(s: Seq<MenuTreeV>, id: i64) -> Seq<MenuTreeV> {
    s.filter(|c: MenuTreeV| c.pid == Some(id))
}

/// The record with copies of its direct children from the flat list
/// appended to whatever children it already carried.
pub open spec fn attach_children(e: MenuTreeV, s: Seq<MenuTreeV>) -> MenuTreeV {
    MenuTreeV { children: e.children + children_of(s, e.id), ..e }
}

/// The explicit roots of the flat list, in order.
pub open spec fn explicit_roots(s: Seq<MenuTreeV>) -> Seq<MenuTreeV> {
    s.filter(|m: MenuTreeV| m.pid is None)
}

/// The records of `t` that no record of `s` lists as its parent.
pub open spec fn unreferenced_in(s: Seq<MenuTreeV>, t: Seq<MenuTreeV>) -> Seq<MenuTreeV> {
    t.filter(|m: MenuTreeV| !is_child_id(s, m.id))
}

/// The roots of the forest: the records without a parent id or, if
/// there is none at all, the records never referenced as a parent.
pub open spec fn roots_of(s: Seq<MenuTreeV>) -> Seq<MenuTreeV> {
    if has_root(s) {
        explicit_roots(s)
    } else {
        unreferenced_in(s, s)
    }
}

/// Each root of the flat list with its direct children attached.
pub open spec fn build_tree_spec(s: Seq<MenuTreeV>) -> Seq<MenuTreeV> {
    roots_of(s).map_values(|e: MenuTreeV| attach_children(e, s))
}

proof fn lemma_children_of_step(s: Seq<MenuTreeV>, id: i64, j: int)
    requires
        0 <= j < s.len(),
    ensures
        children_of(s.subrange(0, j + 1), id) == if s[j].pid == Some(id) {
            children_of(s.subrange(0, j), id).push(s[j])
        } else {
            children_of(s.subrange(0, j), id)
        },
{
    reveal(Seq::filter);
    let t = s.subrange(0, j + 1);
    assert(t.drop_last() =~= s.subrange(0, j));
    assert(t.last() == s[j]);
}

proof fn lemma_explicit_roots_step(s: Seq<MenuTreeV>, j: int)
    requires
        0 <= j < s.len(),
    ensures
        explicit_roots(s.subrange(0, j + 1)) == if s[j].pid is None {
            explicit_roots(s.subrange(0, j)).push(s[j])
        } else {
            explicit_roots(s.subrange(0, j))
        },
{
    reveal(Seq::filter);
    let t = s.subrange(0, j + 1);
    assert(t.drop_last() =~= s.subrange(0, j));
    assert(t.last() == s[j]);
}

proof fn lemma_unreferenced_step(s: Seq<MenuTreeV>, t: Seq<MenuTreeV>, j: int)
    requires
        0 <= j < t.len(),
    ensures
        unreferenced_in(s, t.subrange(0, j + 1)) == if !is_child_id(s, t[j].id) {
            unreferenced_in(s, t.subrange(0, j)).push(t[j])
        } else {
            unreferenced_in(s, t.subrange(0, j))
        },
{
    reveal(Seq::filter);
    let u = t.subrange(0, j + 1);
    assert(u.drop_last() =~= t.subrange(0, j));
    assert(u.last() == t[j]);
}

proof fn lemma_filter_empty(s: Seq<MenuTreeV>)
    requires
        s.len() == 0,
    ensures
        forall|pred: spec_fn(MenuTreeV) -> bool| #[trigger] s.filter(pred) == s,
{
    reveal(Seq::filter);
}

proof fn lemma_explicit_roots_none(s: Seq<MenuTreeV>, j: int)
    requires
        0 <= j <= s.len(),
        forall|i: int| 0 <= i < j ==> !((#[trigger] s[i]).pid is None),
    ensures
        explicit_roots(s.subrange(0, j)).len() == 0,
    decreases j,
{
    reveal(Seq::filter);
    if j == 0 {
        assert(s.subrange(0, 0).len() == 0);
    } else {
        lemma_explicit_roots_none(s, j - 1);
        lemma_explicit_roots_step(s, j - 1);
    }
}

fn referenced_as_parent(all: &Vec<MenuDTO>, id: i64) -> (r: bool)
    ensures
        r == is_child_id(menus_view(all@), id),
{
    let ghost sv = menus_view(all@);
    let mut a: usize = 0;
    while a < all.len()
        invariant
            sv == menus_view(all@),
            a <= all@.len(),
            forall|b: int| 0 <= b < a ==> !((#[trigger] sv[b]).pid == Some(id)),
        decreases all@.len() - a,
    {
        match all[a].pid {
            Some(p) => {
                if p == id {
                    proof {
                        assert(sv[a as int].pid == Some(id));
                    }
                    return true;
                }
            },
            None => {},
        }
        a += 1;
    }
    false
}

fn attach_children_exec(e: &MenuDTO, all: &Vec<MenuDTO>) -> (r: MenuDTO)
    ensures
        r.deep_view() == attach_children(e.deep_view(), menus_view(all@)),
{
    let ghost sv = menus_view(all@);
    let mut node = e.clone_node();
    proof {
        lemma_filter_empty(sv.subrange(0, 0));
        assert(node.deep_view().children + children_of(sv.subrange(0, 0), e.deep_view().id)
            =~= e.deep_view().children);
    }
    let mut j: usize = 0;
    while j < all.len()
        invariant
            sv == menus_view(all@),
            j <= all@.len(),
            node.deep_view() =~~= (MenuTreeV {
                children: e.deep_view().children + children_of(
                    sv.subrange(0, j as int),
                    e.deep_view().id,
                ),
                ..e.deep_view()
            }),
        decreases all@.len() - j,
    {
        let ghost pre = node.deep_view();
        match all[j].pid {
            Some(p) => {
                if p == e.id {
                    let c = all[j].clone_node();
                    node.children.push(c);
                    proof {
                        assert(sv[j as int] == all@[j as int].deep_view());
                        assert(node.deep_view().children =~= pre.children.push(sv[j as int]));
                    }
                }
            },
            None => {},
        }
        proof {
            lemma_children_of_step(sv, e.deep_view().id, j as int);
            assert(node.deep_view() =~~= (MenuTreeV {
                children: e.deep_view().children + children_of(
                    sv.subrange(0, j + 1),
                    e.deep_view().id,
                ),
                ..e.deep_view()
            }));
        }
        j += 1;
    }
    proof {
        assert(sv.subrange(0, sv.len() as int) =~= sv);
        assert(node.deep_view() =~~= attach_children(e.deep_view(), sv));
    }
    node
}

/// Builds the menu forest from the flat permission-filtered list: each
/// root (a record without a parent id, or, when there is none, one
/// never referenced as a parent) is returned carrying a copy of each
/// record that names it as its parent, appended to its own children,
/// in list order.
pub fn build_tree(menu_dtos: Vec<MenuDTO>) -> (r: Vec<MenuDTO>)
    ensures
        menus_view(r@) == build_tree_spec(menus_view(menu_dtos@)),
{
    let ghost sv = menus_view(menu_dtos@);
    let mut result: Vec<MenuDTO> = Vec::new();
    proof {
        lemma_filter_empty(sv.subrange(0, 0));
        assert(menus_view(result@) =~= explicit_roots(sv.subrange(0, 0)).map_values(
            |e: MenuTreeV| attach_children(e, sv),
        ));
    }
    let mut i: usize = 0;
    while i < menu_dtos.len()
        invariant
            sv == menus_view(menu_dtos@),
            i <= menu_dtos@.len(),
            menus_view(result@) == explicit_roots(sv.subrange(0, i as int)).map_values(
                |e: MenuTreeV| attach_children(e, sv),
            ),
        decreases menu_dtos@.len() - i,
    {
        let ghost pre = menus_view(result@);
        if menu_dtos[i].pid.is_none() {
            let node = attach_children_exec(&menu_dtos[i], &menu_dtos);
            result.push(node);
            proof {
                assert(sv[i as int] == menu_dtos@[i as int].deep_view());
                assert(menus_view(result@) =~= pre.push(attach_children(sv[i as int], sv)));
            }
        }
        proof {
            lemma_explicit_roots_step(sv, i as int);
            assert(menus_view(result@) =~= explicit_roots(sv.subrange(0, i + 1)).map_values(
                |e: MenuTreeV| attach_children(e, sv),
            ));
        }
        i += 1;
    }
    proof {
        assert(sv.subrange(0, sv.len() as int) =~= sv);
    }
    if result.len() == 0 {
        proof {
            assert(explicit_roots(sv).len() == 0);
            assert(!has_root(sv)) by {
                if has_root(sv) {
                    let a = choose|a: int| 0 <= a < sv.len() && (#[trigger] sv[a]).pid is None;
                    assert(explicit_roots(sv).contains(sv[a]));
                }
            }
            lemma_filter_empty(sv.subrange(0, 0));
            assert(menus_view(result@) =~= unreferenced_in(sv, sv.subrange(0, 0)).map_values(
                |e: MenuTreeV| attach_children(e, sv),
            ));
        }
        let mut i: usize = 0;
        while i < menu_dtos.len()
            invariant
                sv == menus_view(menu_dtos@),
                i <= menu_dtos@.len(),
                !has_root(sv),
                menus_view(result@) == unreferenced_in(sv, sv.subrange(0, i as int)).map_values(
                    |e: MenuTreeV| attach_children(e, sv),
                ),
            decreases menu_dtos@.len() - i,
        {
            let ghost pre = menus_view(result@);
            if !referenced_as_parent(&menu_dtos, menu_dtos[i].id) {
                let node = attach_children_exec(&menu_dtos[i], &menu_dtos);
                result.push(node);
                proof {
                    assert(sv[i as int] == menu_dtos@[i as int].deep_view());
                    assert(sv[i as int].id == menu_dtos@[i as int].id);
                    assert(menus_view(result@) =~= pre.push(attach_children(sv[i as int], sv)));
                }
            }
            proof {
                assert(menu_dtos@[i as int].id == sv[i as int].id);
                lemma_unreferenced_step(sv, sv, i as int);
                assert(menus_view(result@) =~= unreferenced_in(sv, sv.subrange(0, i + 1)).map_values(
                    |e: MenuTreeV| attach_children(e, sv),
                ));
            }
            i += 1;
        }
        proof {
            assert(sv.subrange(0, sv.len() as int) =~= sv);
            assert(menus_view(result@) == build_tree_spec(sv));
        }
    } else {
        proof {
            assert(has_root(sv)) by {
                if !has_root(sv) {
                    lemma_explicit_roots_none(sv, sv.len() as int);
                    assert(explicit_roots(sv.subrange(0, sv.len() as int)).len() == 0);
                    assert(sv.subrange(0, sv.len() as int) =~= sv);
                    assert(explicit_roots(sv).len() == 0);
                    assert(menus_view(result@).len() == 0);
                }
            }
        }
    }
    result
}

} // verus!
