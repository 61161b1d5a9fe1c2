use vstd::prelude::*;

verus! {

/// Department reference carried inside a user: id and display name.
#[derive(Debug)]
pub struct DeptSmallDto {
    pub id: i64,
    pub name: String,
}

impl Clone for DeptSmallDto {
    fn clone(&self) -> (res: Self)
        ensures
            res == *self,
    {
        DeptSmallDto { id: self.id, name: self.name.clone() }
    }
}

/// The authenticated identity as the session cache stores it.
#[derive(Debug)]
pub struct SysUserDTO {
    pub user_id: i64,
    pub dept_id: Option<i64>,
    pub dept: Option<DeptSmallDto>,
    pub username: String,
    pub password: String,
    pub nick_name: Option<String>,
    pub gender: Option<String>,
    pub phone: Option<String>,
    pub email: Option<String>,
    pub avatar_name: Option<String>,
    pub avatar_path: Option<String>,
    pub is_admin: bool,
    pub enabled: bool,
}

/// Copies an optional string, keeping the value equal.
pub fn clone_opt_string(o: &Option<String>) -> (r: Option<String>)
    ensures
        r == *o,
{
    match o {
        Some(s) => Some(s.clone()),
        None => None,
    }
}

impl Clone for SysUserDTO {
    fn clone(&self) -> (res: Self)
        ensures
            res == *self,
    {
        SysUserDTO {
            user_id: self.user_id,
            dept_id: self.dept_id,
            dept: match &self.dept {
                Some(d) => Some(d.clone()),
                None => None,
            },
            username: self.username.clone(),
            password: self.password.clone(),
            nick_name: clone_opt_string(&self.nick_name),
            gender: clone_opt_string(&self.gender),
            phone: clone_opt_string(&self.phone),
            email: clone_opt_string(&self.email),
            avatar_name: clone_opt_string(&self.avatar_name),
            avatar_path: clone_opt_string(&self.avatar_path),
            is_admin: self.is_admin,
            enabled: self.enabled,
        }
    }
}

impl SysUserDTO {
    /// Fills in the department reference of the user.
    pub fn set_dept(&mut self, dept_id: i64, dept_name: &str)
        ensures
            *final(self) == (SysUserDTO { dept: final(self).dept, ..*old(self) }),
            final(self).dept matches Some(d) && d.id == dept_id && d.name@ == dept_name@,
    {
        self.dept = Some(DeptSmallDto { id: dept_id, name: dept_name.to_owned() });
    }
}

} // verus!
