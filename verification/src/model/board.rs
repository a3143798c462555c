//! Board metadata: name, lists, labels, accent color.

use vstd::prelude::*;

use crate::model::ids::{new_id, now_micros, ShortId, Timestamp};
use crate::model::label::{Label, LabelColor};

verus! {

/// Persisted definition of a list. Membership is not stored here: each
/// card carries its own `list_id`.
#[derive(Debug, Clone)]
pub struct ListMeta {
    pub id: ShortId,
    pub name: String,
    pub archived: bool,
}

/// A board's metadata. `lists` holds the list definitions (active and
/// archived) in left-to-right order; `list_order` is the legacy order
/// field read only to migrate old boards.
#[derive(Debug, Clone)]
pub struct BoardMeta {
    pub id: ShortId,
    pub name: String,
    pub description: String,
    pub lists: Vec<ListMeta>,
    pub list_order: Vec<ShortId>,
    pub labels: Vec<Label>,
    pub accent_color: LabelColor,
    pub archived: bool,
    pub created_at: Timestamp,
    pub updated_at: Timestamp,
}

impl ListMeta {
    /// A field-by-field copy.
    pub fn duplicate(&self) -> (r: Self)
        ensures
            r == *self,
    {
        ListMeta { id: self.id.clone(), name: self.name.clone(), archived: self.archived }
    }
}

impl BoardMeta {
    /// A fresh, active board named `name` with id `id`, created at `now`:
    /// no description, lists or labels, the default (cyan) accent.
    pub fn new_at(id: ShortId, name: String, now: Timestamp) -> (m: Self)
        ensures
            m.id == id,
            m.name == name,
            m.description@.len() == 0,
            m.lists@.len() == 0,
            m.list_order@.len() == 0,
            m.labels@.len() == 0,
            m.accent_color == LabelColor::Cyan,
            !m.archived,
            m.created_at == now,
            m.updated_at == now,
    {
        BoardMeta {
            id,
            name,
            description: String::new(),
            lists: Vec::new(),
            list_order: Vec::new(),
            labels: Vec::new(),
            accent_color: LabelColor::Cyan,
            archived: false,
            created_at: now,
            updated_at: now,
        }
    }

    /// A fresh board with a random id, created now (see [`BoardMeta::new_at`]).
    pub fn new(name: String) -> (m: Self)
        ensures
            m.name == name,
            m.id@.len() == 8,
            m.description@.len() == 0,
            m.lists@.len() == 0,
            m.list_order@.len() == 0,
            m.labels@.len() == 0,
            m.accent_color == LabelColor::Cyan,
            !m.archived,
            m.created_at == m.updated_at,
    {
        let id = new_id();
        let now = now_micros();
        BoardMeta::new_at(id, name, now)
    }
}

} // verus!
