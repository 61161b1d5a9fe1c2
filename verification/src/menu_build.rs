use vstd::prelude::*;
use crate::menu::{
    menus_view, vos_view, MenuDTO, MenuMetaV, MenuMetaVo, MenuTreeV, MenuType, MenuVO, MenuVoV,
};
use crate::user::clone_opt_string;

verus! {

/// Display name of a route node: the component name when configured,
/// the title otherwise.
pub open spec fn vo_name(m: MenuTreeV) -> Option<Seq<char>> {
    if m.component_name is None {
        m.title
    } else {
        m.component_name
    }
}

/// A path with the leading slash a root route carries.
pub open spec fn prefixed(p: Seq<char>) -> Seq<char> {
    seq!['/'] + p
}

/// Route path: root nodes get the leading slash, everything else keeps
/// the raw path.
pub open spec fn vo_path(m: MenuTreeV) -> Option<Seq<char>> {
    if m.pid is None {
        match m.path {
            Some(p) => Some(prefixed(p)),
            None => None,
        }
    } else {
        m.path
    }
}

/// An internal frame: the external-link flag is present and false.
pub open spec fn is_frame(m: MenuTreeV) -> bool {
    m.i_frame == Some(false)
}

/// Whether the node carries a non-empty component string.
pub open spec fn has_component(m: MenuTreeV) -> bool {
    match m.component {
        Some(c) => c.len() > 0,
        None => false,
    }
}

/// Component resolution: external links get none; internal frames fall
/// back to the layout wrapper at root level and to the folder wrapper
/// for nested folders when no component is configured.
pub open spec fn vo_component(m: MenuTreeV) -> Option<Seq<char>> {
    if is_frame(m) {
        if m.pid is None {
            if has_component(m) {
                m.component
            } else {
                Some("Layout"@)
            }
        } else if m.type_ == MenuType::FOLDER {
            if has_component(m) {
                m.component
            } else {
                Some("ParentView"@)
            }
        } else if has_component(m) {
            m.component
        } else {
            None
        }
    } else {
        None
    }
}

/// Display metadata: title, icon, and the cache flag inverted.
pub open spec fn vo_meta(m: MenuTreeV) -> MenuMetaV {
    MenuMetaV {
        title: m.title,
        icon: m.icon,
        no_cache: match m.cache {
            Some(b) => !b,
            None => true,
        },
    }
}

/// The route node built for one menu node: nodes with children carry
/// their transformed children and are always shown; a childless root
/// is demoted to a layout wrapper around one synthesized leaf route;
/// a childless nested node is returned plainly.
pub open spec fn build_menu_vo(m: MenuTreeV) -> MenuVoV
    decreases m,
{
    if m.children.len() > 0 {
        MenuVoV {
            name: vo_name(m),
            path: vo_path(m),
            hidden: m.hidden,
            redirect: Some("noredirect"@),
            component: vo_component(m),
            always_show: true,
            meta: Some(vo_meta(m)),
            children: Seq::new(
                m.children.len(),
                |i: int|
                    if 0 <= i < m.children.len() {
                        proof {
                            assert(decreases_to!(m => m.children));
                            assert(decreases_to!(m.children => m.children[i]));
                            assert(decreases_to!(m => m.children[i]));
                        }
                        build_menu_vo(m.children[i])
                    } else {
                        vstd::pervasive::arbitrary()
                    },
            ),
        }
    } else if m.pid is None {
        let leaf = if is_frame(m) {
            MenuVoV {
                name: vo_name(m),
                path: Some("index"@),
                hidden: None,
                redirect: None,
                component: vo_component(m),
                always_show: false,
                meta: Some(vo_meta(m)),
                children: Seq::empty(),
            }
        } else {
            MenuVoV {
                name: None,
                path: m.path,
                hidden: None,
                redirect: None,
                component: None,
                always_show: false,
                meta: Some(vo_meta(m)),
                children: Seq::empty(),
            }
        };
        MenuVoV {
            name: None,
            path: vo_path(m),
            hidden: m.hidden,
            redirect: None,
            component: Some("Layout"@),
            always_show: false,
            meta: None,
            children: seq![leaf],
        }
    } else {
        MenuVoV {
            name: vo_name(m),
            path: vo_path(m),
            hidden: m.hidden,
            redirect: None,
            component: vo_component(m),
            always_show: false,
            meta: Some(vo_meta(m)),
            children: Seq::empty(),
        }
    }
}

/// The route forest for a list of menu nodes, node by node.
pub open spec fn build_menus_spec(s: Seq<MenuTreeV>) -> Seq<MenuVoV> {
    Seq::new(s.len(), |i: int| build_menu_vo(s[i]))
}

/// Every parentless record in the tree carries a path: what the route
/// transformation demands of its callers, since a root route is
/// prefixed from its path.
pub open spec fn tree_paths_ok(m: MenuTreeV) -> bool
    decreases m,
{
    &&& (m.pid is None ==> m.path is Some)
    &&& forall|i: int| 0 <= i < m.children.len() ==> tree_paths_ok(#[trigger] m.children[i])
}

/// Every parentless record of the forest, at any depth, carries a
/// path.
pub open spec fn menus_paths_ok(s: Seq<MenuTreeV>) -> bool {
    forall|i: int| 0 <= i < s.len() ==> tree_paths_ok(#[trigger] s[i])
}

fn build_one(m: &MenuDTO) -> (r: MenuVO)
    requires
        tree_paths_ok(m.deep_view()),
    ensures
        r.deep_view() == build_menu_vo(m.deep_view()),
    decreases *m,
{
    let ghost dv = m.deep_view();
    let name = if m.component_name.is_none() {
        clone_opt_string(&m.title)
    } else {
        clone_opt_string(&m.component_name)
    };
    let path: Option<String> = if m.pid.is_none() {
        match &m.path {
            Some(p) => {
                let s = String::from_str("/").concat(p.as_str());
                proof {
                    reveal_strlit("/");
                    assert(s@ =~= prefixed(p@));
                }
                Some(s)
            },
            None => unreached(),
        }
    } else {
        clone_opt_string(&m.path)
    };
    let frame = match m.i_frame {
        Some(b) => !b,
        None => false,
    };
    let nonempty_comp = match &m.component {
        Some(c) => !c.as_str().is_empty(),
        None => false,
    };
    let component: Option<String> = if frame {
        if m.pid.is_none() {
            if nonempty_comp {
                clone_opt_string(&m.component)
            } else {
                Some(String::from_str("Layout"))
            }
        } else if m.type_ == MenuType::FOLDER {
            if nonempty_comp {
                clone_opt_string(&m.component)
            } else {
                Some(String::from_str("ParentView"))
            }
        } else if nonempty_comp {
            clone_opt_string(&m.component)
        } else {
            None
        }
    } else {
        None
    };
    let meta = MenuMetaVo {
        title: clone_opt_string(&m.title),
        icon: clone_opt_string(&m.icon),
        no_cache: match m.cache {
            Some(b) => !b,
            None => true,
        },
    };
    if m.children.len() > 0 {
        let mut kids: Vec<MenuVO> = Vec::new();
        let mut j: usize = 0;
        while j < m.children.len()
            invariant
                dv == m.deep_view(),
                tree_paths_ok(dv),
                j <= m.children@.len(),
                kids@.len() == j,
                forall|a: int|
                    0 <= a < j ==> (#[trigger] kids@[a]).deep_view() == build_menu_vo(
                        dv.children[a],
                    ),
            decreases m.children@.len() - j,
        {
            proof {
                assert(decreases_to!(*m => m.children));
                assert(decreases_to!(m.children => m.children@));
                assert(decreases_to!(m.children@ => m.children@[j as int]));
                assert(decreases_to!(*m => m.children@[j as int]));
            }
            proof {
                assert(dv.children[j as int] == m.children@[j as int].deep_view());
                assert(tree_paths_ok(dv.children[j as int]));
            }
            let k = build_one(&m.children[j]);
            kids.push(k);
            j += 1;
        }
        let r = MenuVO {
            name,
            path,
            hidden: m.hidden,
            redirect: Some(String::from_str("noredirect")),
            component,
            always_show: true,
            meta: Some(meta),
            children: kids,
        };
        proof {
            assert(r.deep_view().children =~= build_menu_vo(dv).children);
            assert(r.deep_view() =~~= build_menu_vo(dv));
        }
        r
    } else if m.pid.is_none() {
        let leaf = if frame {
            MenuVO {
                name,
                path: Some(String::from_str("index")),
                hidden: None,
                redirect: None,
                component,
                always_show: false,
                meta: Some(meta),
                children: Vec::new(),
            }
        } else {
            MenuVO {
                name: None,
                path: clone_opt_string(&m.path),
                hidden: None,
                redirect: None,
                component: None,
                always_show: false,
                meta: Some(meta),
                children: Vec::new(),
            }
        };
        let mut kids: Vec<MenuVO> = Vec::new();
        kids.push(leaf);
        let r = MenuVO {
            name: None,
            path,
            hidden: m.hidden,
            redirect: None,
            component: Some(String::from_str("Layout")),
            always_show: false,
            meta: None,
            children: kids,
        };
        proof {
            reveal_with_fuel(crate::menu::vo_tree_view, 3);
            let lv = r.deep_view().children[0];
            let sl = build_menu_vo(dv).children[0];
            assert(lv.name == sl.name);
            assert(lv.path == sl.path);
            assert(lv.component == sl.component);
            assert(lv.meta == sl.meta);
            assert(lv.children =~~= sl.children);
            assert(r.deep_view().children[0] =~~= build_menu_vo(dv).children[0]);
            assert(r.deep_view().children =~~= build_menu_vo(dv).children);
            assert(r.deep_view() =~~= build_menu_vo(dv));
        }
        r
    } else {
        let r = MenuVO {
            name,
            path,
            hidden: m.hidden,
            redirect: None,
            component,
            always_show: false,
            meta: Some(meta),
            children: Vec::new(),
        };
        proof {
            assert(r.deep_view().children =~= build_menu_vo(dv).children);
            assert(r.deep_view() =~~= build_menu_vo(dv));
        }
        r
    }
}

/// Turns the menu forest into the route forest the client renders,
/// node for node in order.
pub fn build_menus(menu_dtos: Vec<MenuDTO>) -> (r: Vec<MenuVO>)
    requires
        menus_paths_ok(menus_view(menu_dtos@)),
    ensures
        vos_view(r@) == build_menus_spec(menus_view(menu_dtos@)),
{
    let ghost sv = menus_view(menu_dtos@);
    let mut vos: Vec<MenuVO> = Vec::new();
    let mut i: usize = 0;
    while i < menu_dtos.len()
        invariant
            sv == menus_view(menu_dtos@),
            menus_paths_ok(sv),
            i <= menu_dtos@.len(),
            vos@.len() == i,
            forall|a: int|
                0 <= a < i ==> (#[trigger] vos@[a]).deep_view() == build_menu_vo(sv[a]),
        decreases menu_dtos@.len() - i,
    {
        proof {
            assert(sv[i as int] == menu_dtos@[i as int].deep_view());
            assert(tree_paths_ok(sv[i as int]));
        }
        let v = build_one(&menu_dtos[i]);
        vos.push(v);
        i += 1;
    }
    proof {
        assert(vos_view(vos@) =~= build_menus_spec(sv));
    }
    vos
}

} // verus!
