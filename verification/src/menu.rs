use vstd::prelude::*;

verus! {

/// Kind of a menu record: a folder grouping entries, a routable entry,
/// or a plain button.
#[derive(Debug, Clone, Copy, PartialEq, Eq, Structural)]
pub enum MenuType {
    FOLDER,
    MENU,
    BUTTON,
}

/// Numeric tag of a menu kind in the storage layer.
pub open spec fn menu_type_code(t: MenuType) -> i32 {
    match t {
        MenuType::FOLDER => 0,
        MenuType::MENU => 1,
        MenuType::BUTTON => 2,
    }
}

impl MenuType {
    /// The numeric tag of this kind.
    pub fn code(self) -> (r: i32)
        ensures
            r == menu_type_code(self),
    {
        match self {
            MenuType::FOLDER => 0,
            MenuType::MENU => 1,
            MenuType::BUTTON => 2,
        }
    }

    /// The kind for a numeric tag; an unknown tag is rejected, exactly
    /// when it is none of the three.
    pub fn from_code(code: i32) -> (r: Option<MenuType>)
        ensures
            match r {
                Some(t) => menu_type_code(t) == code,
                None => code != 0 && code != 1 && code != 2,
            },
    {
        match code {
            0 => Some(MenuType::FOLDER),
            1 => Some(MenuType::MENU),
            2 => Some(MenuType::BUTTON),
            _ => None,
        }
    }
}

/// A menu record, with the child records the tree construction
/// attaches under it.
#[derive(Debug)]
pub struct MenuDTO {
    pub id: i64,
    pub pid: Option<i64>,
    pub children: Vec<MenuDTO>,
    pub sub_count: i32,
    pub type_: MenuType,
    pub title: Option<String>,
    pub component_name: Option<String>,
    pub component: Option<String>,
    pub menu_sort: i32,
    pub icon: Option<String>,
    pub path: Option<String>,
    pub i_frame: Option<bool>,
    pub cache: Option<bool>,
    pub hidden: Option<bool>,
    pub permission: Option<String>,
    pub create_by: Option<String>,
    pub update_by: Option<String>,
}

/// Mathematical value of a menu record, its subtree included.
#[verifier::ext_equal]
pub struct MenuTreeV {
    pub id: i64,
    pub pid: Option<i64>,
    pub children: Seq<MenuTreeV>,
    pub sub_count: i32,
    pub type_: MenuType,
    pub title: Option<Seq<char>>,
    pub component_name: Option<Seq<char>>,
    pub component: Option<Seq<char>>,
    pub menu_sort: i32,
    pub icon: Option<Seq<char>>,
    pub path: Option<Seq<char>>,
    pub i_frame: Option<bool>,
    pub cache: Option<bool>,
    pub hidden: Option<bool>,
    pub permission: Option<Seq<char>>,
    pub create_by: Option<Seq<char>>,
    pub update_by: Option<Seq<char>>,
}

/// The view of an optional string.
pub open spec fn opt_view(o: Option<String>) -> Option<Seq<char>> {
    match o {
        Some(s) => Some(s@),
        None => None,
    }
}

/// Mathematical value of a menu record, defined recursively over its
/// children.
pub open spec fn menu_tree_view(m: MenuDTO) -> MenuTreeV
    decreases m,
{
    MenuTreeV {
        id: m.id,
        pid: m.pid,
        children: Seq::new(
            m.children@.len(),
            |i: int|
                if 0 <= i < m.children@.len() {
                    proof {
                        assert(decreases_to!(m => m.children));
                        assert(decreases_to!(m.children => m.children@));
                        assert(decreases_to!(m.children@ => m.children@[i]));
                        assert(decreases_to!(m => m.children@[i]));
                    }
                    menu_tree_view(m.children@[i])
                } else {
                    vstd::pervasive::arbitrary()
                },
        ),
        sub_count: m.sub_count,
        type_: m.type_,
        title: opt_view(m.title),
        component_name: opt_view(m.component_name),
        component: opt_view(m.component),
        menu_sort: m.menu_sort,
        icon: opt_view(m.icon),
        path: opt_view(m.path),
        i_frame: m.i_frame,
        cache: m.cache,
        hidden: m.hidden,
        permission: opt_view(m.permission),
        create_by: opt_view(m.create_by),
        update_by: opt_view(m.update_by),
    }
}

impl DeepView for MenuDTO {
    type V = MenuTreeV;

    open spec fn deep_view(&self) -> MenuTreeV {
        menu_tree_view(*self)
    }
}

/// The views of a list of menu records.
pub open spec fn menus_view(s: Seq<MenuDTO>) -> Seq<MenuTreeV> {
    Seq::new(s.len(), |i: int| s[i].deep_view())
}

impl MenuDTO {
    /// An independent copy of the record and its whole subtree.
    pub fn clone_node(&self) -> (r: MenuDTO)
        ensures
            r.deep_view() == self.deep_view(),
        decreases *self,
    {
        let mut kids: Vec<MenuDTO> = Vec::new();
        let mut j: usize = 0;
        while j < self.children.len()
            invariant
                j <= self.children@.len(),
                kids@.len() == j,
                forall|a: int|
                    0 <= a < j ==> (#[trigger] kids@[a]).deep_view()
                        == self.children@[a].deep_view(),
            decreases self.children@.len() - j,
        {
            proof {
                assert(decreases_to!(*self => self.children));
                assert(decreases_to!(self.children => self.children@));
                assert(decreases_to!(self.children@ => self.children@[j as int]));
                assert(decreases_to!(*self => self.children@[j as int]));
            }
            kids.push(self.children[j].clone_node());
            j += 1;
        }
        let r = MenuDTO {
            id: self.id,
            pid: self.pid,
            children: kids,
            sub_count: self.sub_count,
            type_: self.type_,
            title: crate::user::clone_opt_string(&self.title),
            component_name: crate::user::clone_opt_string(&self.component_name),
            component: crate::user::clone_opt_string(&self.component),
            menu_sort: self.menu_sort,
            icon: crate::user::clone_opt_string(&self.icon),
            path: crate::user::clone_opt_string(&self.path),
            i_frame: self.i_frame,
            cache: self.cache,
            hidden: self.hidden,
            permission: crate::user::clone_opt_string(&self.permission),
            create_by: crate::user::clone_opt_string(&self.create_by),
            update_by: crate::user::clone_opt_string(&self.update_by),
        };
        proof {
            assert(r.deep_view().children =~= self.deep_view().children);
            assert(r.deep_view() =~~= self.deep_view());
        }
        r
    }
}

/// Route node handed to the client UI.
#[derive(Debug)]
pub struct MenuVO {
    pub name: Option<String>,
    pub path: Option<String>,
    pub hidden: Option<bool>,
    pub redirect: Option<String>,
    pub component: Option<String>,
    pub always_show: bool,
    pub meta: Option<MenuMetaVo>,
    pub children: Vec<MenuVO>,
}

/// Display metadata of a route node.
#[derive(Debug)]
pub struct MenuMetaVo {
    pub title: Option<String>,
    pub icon: Option<String>,
    pub no_cache: bool,
}

/// Mathematical value of the display metadata.
#[verifier::ext_equal]
pub struct MenuMetaV {
    pub title: Option<Seq<char>>,
    pub icon: Option<Seq<char>>,
    pub no_cache: bool,
}

/// Mathematical value of a route node, its subtree included.
#[verifier::ext_equal]
pub struct MenuVoV {
    pub name: Option<Seq<char>>,
    pub path: Option<Seq<char>>,
    pub hidden: Option<bool>,
    pub redirect: Option<Seq<char>>,
    pub component: Option<Seq<char>>,
    pub always_show: bool,
    pub meta: Option<MenuMetaV>,
    pub children: Seq<MenuVoV>,
}

impl DeepView for MenuMetaVo {
    type V = MenuMetaV;

    open spec fn deep_view(&self) -> MenuMetaV {
        MenuMetaV { title: opt_view(self.title), icon: opt_view(self.icon), no_cache: self.no_cache }
    }
}

/// Mathematical value of a route node, defined recursively over its
/// children.
pub open spec fn vo_tree_view(v: MenuVO) -> MenuVoV
    decreases v,
{
    MenuVoV {
        name: opt_view(v.name),
        path: opt_view(v.path),
        hidden: v.hidden,
        redirect: opt_view(v.redirect),
        component: opt_view(v.component),
        always_show: v.always_show,
        meta: match v.meta {
            Some(m) => Some(m.deep_view()),
            None => None,
        },
        children: Seq::new(
            v.children@.len(),
            |i: int|
                if 0 <= i < v.children@.len() {
                    proof {
                        assert(decreases_to!(v => v.children));
                        assert(decreases_to!(v.children => v.children@));
                        assert(decreases_to!(v.children@ => v.children@[i]));
                        assert(decreases_to!(v => v.children@[i]));
                    }
                    vo_tree_view(v.children@[i])
                } else {
                    vstd::pervasive::arbitrary()
                },
        ),
    }
}

impl DeepView for MenuVO {
    type V = MenuVoV;

    open spec fn deep_view(&self) -> MenuVoV {
        vo_tree_view(*self)
    }
}

/// The views of a list of route nodes.
pub open spec fn vos_view(s: Seq<MenuVO>) -> Seq<MenuVoV> {
    Seq::new(s.len(), |i: int| s[i].deep_view())
}

} // verus!
