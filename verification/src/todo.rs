//! The task record and the set of changes that an update carries.

use vstd::prelude::*;

verus! {

/// A task record as the store holds it and hands it out.
#[derive(Debug, PartialEq, Eq)]
pub struct Todo {
    pub id: u32,
    pub title: String,
    pub completed: bool,
}

/// What a task record is: its identifier, the characters of its title and
/// its completion flag.
pub struct TodoView {
    pub id: nat,
    pub title: Seq<char>,
    pub completed: bool,
}

impl View for Todo {
    type V = TodoView;

    open spec fn view(&self) -> TodoView {
        TodoView { id: self.id as nat, title: self.title@, completed: self.completed }
    }
}

impl Clone for Todo {
    fn clone(&self) -> (copy: Self)
        ensures
            copy@ == self@,
    {
        Todo { id: self.id, title: self.title.clone(), completed: self.completed }
    }
}

/// The fields that an update replaces. A field left `None` keeps its value.
#[derive(Debug, PartialEq, Eq)]
pub struct UpdateTodo {
    pub title: Option<String>,
    pub completed: Option<bool>,
}

/// What an update asks for: a new title, a new completion flag, both or
/// neither.
pub struct UpdateView {
    pub title: Option<Seq<char>>,
    pub completed: Option<bool>,
}

impl UpdateView {
    /// The update that changes nothing.
    pub open spec fn nothing() -> UpdateView {
        UpdateView { title: None, completed: None }
    }

    /// The record `todo` after this update: each field that the update
    /// supplies is replaced, the others and the identifier are kept.
    pub open spec fn apply(self, todo: TodoView) -> TodoView {
        TodoView {
            id: todo.id,
            title: match self.title {
                Some(title) => title,
                None => todo.title,
            },
            completed: match self.completed {
                Some(completed) => completed,
                None => todo.completed,
            },
        }
    }
}

impl View for UpdateTodo {
    type V = UpdateView;

    open spec fn view(&self) -> UpdateView {
        UpdateView {
            title: match self.title {
                Some(title) => Some(title@),
                None => None,
            },
            completed: self.completed,
        }
    }
}

impl UpdateTodo {
    /// Applies the update to a copy of `todo`.
    pub fn apply(self, todo: &Todo) -> (updated: Todo)
        ensures
            updated@ == self@.apply(todo@),
    {
        let title = match self.title {
            Some(title) => title,
            None => todo.title.clone(),
        };
        let completed = match self.completed {
            Some(completed) => completed,
            None => todo.completed,
        };
        Todo { id: todo.id, title, completed }
    }
}

} // verus!
