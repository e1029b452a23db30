use vstd::prelude::*;
use crate::model::{Workspace, copy_text};

verus! {

/// How saving a workspace for a domain goes: the workspace with that domain
/// is updated in place, or a new one is inserted.
#[derive(Debug, Clone, Copy, PartialEq, Eq)]
pub enum SaveAction {
    Update(i64),
    Insert,
}

/// The first workspace with the given domain, by position.
pub open spec fn first_with_domain(ws: Seq<Workspace>, domain: Seq<char>) -> Option<int>
    decreases ws.len(),
{
    if ws.len() == 0 {
        None
    } else if ws[0].domain@ == domain {
        Some(0)
    } else {
        match first_with_domain(ws.skip(1), domain) {
            Some(i) => Some(i + 1),
            None => None,
        }
    }
}

/// The first workspace with the given id, by position.
pub open spec fn first_with_id(ws: Seq<Workspace>, id: i64) -> Option<int>
    decreases ws.len(),
{
    if ws.len() == 0 {
        None
    } else if ws[0].id == id {
        Some(0)
    } else {
        match first_with_id(ws.skip(1), id) {
            Some(i) => Some(i + 1),
            None => None,
        }
    }
}

/// The position of the first workspace with the given domain.
pub fn find_by_domain(ws: &Vec<Workspace>, domain: &String) -> (r: Option<usize>)
    ensures
        r matches Some(i) ==> first_with_domain(ws@, domain@) == Some(i as int) && i < ws.len()
            && ws@[i as int].domain@ == domain@,
        r is None ==> first_with_domain(ws@, domain@) is None,
{
    let mut i: usize = 0;
    assert(ws@.skip(0) =~= ws@);
    while i < ws.len()
        invariant
            i <= ws.len(),
            first_with_domain(ws@, domain@) == match first_with_domain(
                ws@.skip(i as int),
                domain@,
            ) {
                Some(j) => Some(j + i),
                None => None::<int>,
            },
        decreases ws.len() - i,
    {
        assert(ws@.skip(i as int).skip(1) =~= ws@.skip(i + 1));
        if ws[i].domain == *domain {
            return Some(i);
        }
        i = i + 1;
    }
    assert(ws@.skip(i as int) =~= Seq::<Workspace>::empty());
    None
}

/// The position of the first workspace with the given id.
pub fn find_by_id(ws: &Vec<Workspace>, id: i64) -> (r: Option<usize>)
    ensures
        r matches Some(i) ==> first_with_id(ws@, id) == Some(i as int) && i < ws.len()
            && ws@[i as int].id == id,
        r is None ==> first_with_id(ws@, id) is None,
{
    let mut i: usize = 0;
    assert(ws@.skip(0) =~= ws@);
    while i < ws.len()
        invariant
            i <= ws.len(),
            first_with_id(ws@, id) == match first_with_id(ws@.skip(i as int), id) {
                Some(j) => Some(j + i),
                None => None::<int>,
            },
        decreases ws.len() - i,
    {
        assert(ws@.skip(i as int).skip(1) =~= ws@.skip(i + 1));
        if ws[i].id == id {
            return Some(i);
        }
        i = i + 1;
    }
    assert(ws@.skip(i as int) =~= Seq::<Workspace>::empty());
    None
}

/// Saving a workspace for a domain updates the workspace that already has
/// that domain, so that each domain has one workspace.
pub fn save_action(existing: &Vec<Workspace>, domain: &String) -> (r: SaveAction)
    ensures
        r == match first_with_domain(existing@, domain@) {
            Some(i) => SaveAction::Update(existing@[i].id),
            None => SaveAction::Insert,
        },
{
    match find_by_domain(existing, domain) {
        Some(i) => SaveAction::Update(existing[i].id),
        None => SaveAction::Insert,
    }
}

impl Workspace {
    /// The same workspace, enabled or disabled.
    pub fn with_enabled(&self, enabled: bool) -> (r: Workspace)
        ensures
            r == (Workspace { enabled, ..*self }),
    {
        Workspace {
            id: self.id,
            domain: self.domain.clone(),
            api_key: self.api_key.clone(),
            project_keys: self.project_keys.clone(),
            user_id: self.user_id,
            user_name: copy_text(&self.user_name),
            enabled,
            api_limit: self.api_limit,
            api_remaining: self.api_remaining,
            api_reset: copy_text(&self.api_reset),
        }
    }
}

} // verus!
