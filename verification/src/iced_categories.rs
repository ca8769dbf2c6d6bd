//! The categories page of the editor's iced front end: which category is
//! selected.
use vstd::prelude::*;
use crate::shared::CategoryId;

verus! {

/// The state of the categories page.
#[derive(Debug, Default)]
pub struct State {
    pub selected_category: Option<CategoryId>,
}

/// What the categories page reacts to.
#[derive(Debug, Clone)]
pub enum CategoriesMessage {
    SelectCategory(CategoryId),
}

impl State {
    /// Handles a message: selecting a category makes it the selection.
    pub fn update(&mut self, message: CategoriesMessage)
        ensures
            match message {
                CategoriesMessage::SelectCategory(id) => final(self).selected_category == Some(id),
            },
    {
        match message {
            CategoriesMessage::SelectCategory(id) => {
                self.selected_category = Some(id);
            },
        }
    }
}

} // verus!
