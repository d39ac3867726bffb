//! The store: the one owner of all task records.
//!
//! It hands out copies and never a reference into itself. Its identifiers
//! come from a counter that only grows, so an identifier that was retired
//! by a deletion is not given to a later record.

use crate::model::StoreView;
use crate::todo::{Todo, TodoView, UpdateTodo};
use vstd::prelude::*;

verus! {

/// Why the store could not do what was asked.
#[derive(Debug, Clone, Copy, PartialEq, Eq, Structural)]
pub enum StoreError {
    /// The store holds no record with the identifier that was asked for.
    NotFound,
}

/// The records of `todos`, each as what it is.
pub open spec fn todo_views(todos: Seq<Todo>) -> Seq<TodoView> {
    todos.map_values(|todo: Todo| todo@)
}

/// The records, in the order of their creation, and the counter that
/// identifiers come from.
pub struct Store {
    todos: Vec<Todo>,
    issued: u32,
}

impl View for Store {
    type V = StoreView;

    closed spec fn view(&self) -> StoreView {
        StoreView { todos: todo_views(self.todos@), issued: self.issued as nat }
    }
}

impl Store {
    #[verifier::type_invariant]
    spec fn holds_well_formed(&self) -> bool {
        self@.well_formed()
    }

    /// An empty store that has handed out no identifier.
    pub fn new() -> (store: Store)
        ensures
            store@ == StoreView::empty(),
            store@.well_formed(),
    {
        let store = Store { todos: Vec::new(), issued: 0 };
        assert(store@.todos =~= StoreView::empty().todos);
        store
    }

    /// Whether every identifier has been handed out, so that nothing more
    /// can be created.
    pub fn is_full(&self) -> (full: bool)
        ensures
            self@.well_formed(),
            full == (self@.issued >= u32::MAX),
    {
        proof {
            use_type_invariant(self);
        }
        self.issued == u32::MAX
    }

    /// The place of the record with the identifier `id`, if the store holds
    /// one.
    fn find(&self, id: u32) -> (place: Option<usize>)
        ensures
            self@.well_formed(),
            match place {
                Some(i) => i < self.todos.len() && self@.todos[i as int].id == id
                    && self@.todos[i as int] == self.todos[i as int]@,
                None => !self@.contains_id(id as nat),
            },
    {
        proof {
            use_type_invariant(self);
        }
        let mut i: usize = 0;
        while i < self.todos.len()
            invariant
                self@.well_formed(),
                i <= self.todos.len(),
                forall|j: int| 0 <= j < i ==> (#[trigger] self@.todos[j]).id != id,
            decreases self.todos.len() - i,
        {
            if self.todos[i].id == id {
                return Some(i);
            }
            i += 1;
        }
        None
    }

    /// A copy of every record, oldest first.
    pub fn list(&self) -> (todos: Vec<Todo>)
        ensures
            self@.well_formed(),
            todo_views(todos@) == self@.todos,
    {
        proof {
            use_type_invariant(self);
        }
        let mut copies: Vec<Todo> = Vec::new();
        let mut i: usize = 0;
        while i < self.todos.len()
            invariant
                i <= self.todos.len(),
                copies.len() == i,
                forall|j: int| 0 <= j < i ==> (#[trigger] copies[j])@ == self.todos[j]@,
            decreases self.todos.len() - i,
        {
            copies.push(self.todos[i].clone());
            i += 1;
        }
        assert(todo_views(copies@) =~= self@.todos);
        copies
    }

    /// Creates a record with this title, not completed, under the next
    /// identifier, and returns a copy of it.
    pub fn create(&mut self, title: String) -> (todo: Todo)
        requires
            old(self)@.issued < u32::MAX,
        ensures
            final(self)@.well_formed(),
            final(self)@ == old(self)@.create(title@),
            todo@ == old(self)@.created(title@),
    {
        proof {
            use_type_invariant(&*self);
            self@.lemma_create(title@);
        }
        let id: u32 = self.issued + 1;
        let todo = Todo { id, title, completed: false };
        let copy = todo.clone();
        let ghost before = self@;
        // The records are taken out while they change, so that the store
        // is well formed at every step.
        let mut todos: Vec<Todo> = Vec::new();
        core::mem::swap(&mut self.todos, &mut todos);
        self.issued = id;
        todos.push(todo);
        assert(todo_views(todos@) =~= before.create(title@).todos);
        core::mem::swap(&mut self.todos, &mut todos);
        copy
    }

    /// A copy of the record with the identifier `id`.
    pub fn get(&self, id: u32) -> (found: Result<Todo, StoreError>)
        ensures
            self@.well_formed(),
            match found {
                Ok(todo) => self@.lookup(id as nat) == Some(todo@),
                Err(error) => error == StoreError::NotFound && self@.lookup(id as nat) is None,
            },
    {
        match self.find(id) {
            Some(i) => {
                proof {
                    self@.lemma_lookup_at(i as int);
                }
                Ok(self.todos[i].clone())
            },
            None => Err(StoreError::NotFound),
        }
    }

    /// Replaces, in the record with the identifier `id`, the fields that
    /// `changes` supplies, and returns a copy of the record as it then is.
    pub fn update(&mut self, id: u32, changes: UpdateTodo) -> (updated: Result<Todo, StoreError>)
        ensures
            final(self)@.well_formed(),
            final(self)@ == old(self)@.update(id as nat, changes@),
            match updated {
                Ok(todo) => old(self)@.lookup(id as nat) is Some && todo@ == changes@.apply(
                    old(self)@.lookup(id as nat).unwrap(),
                ),
                Err(error) => error == StoreError::NotFound && old(self)@.lookup(id as nat) is None,
            },
    {
        match self.find(id) {
            Some(i) => {
                let ghost before = self@;
                proof {
                    before.lemma_lookup_at(i as int);
                    before.lemma_update_at(i as int, changes@);
                }
                let todo = changes.apply(&self.todos[i]);
                let copy = todo.clone();
                let mut todos: Vec<Todo> = Vec::new();
                core::mem::swap(&mut self.todos, &mut todos);
                todos.set(i, todo);
                assert(todo_views(todos@) =~= before.todos.update(i as int, copy@));
                core::mem::swap(&mut self.todos, &mut todos);
                Ok(copy)
            },
            None => {
                proof {
                    self@.lemma_update_absent(id as nat, changes@);
                }
                Err(StoreError::NotFound)
            },
        }
    }

    /// Removes the record with the identifier `id`.
    pub fn delete(&mut self, id: u32) -> (removed: Result<(), StoreError>)
        ensures
            final(self)@.well_formed(),
            final(self)@ == old(self)@.delete(id as nat),
            match removed {
                Ok(_) => old(self)@.contains_id(id as nat),
                Err(error) => error == StoreError::NotFound && !old(self)@.contains_id(id as nat),
            },
    {
        match self.find(id) {
            Some(i) => {
                let ghost before = self@;
                proof {
                    before.lemma_lookup_at(i as int);
                    before.lemma_delete_at(i as int);
                }
                let mut todos: Vec<Todo> = Vec::new();
                core::mem::swap(&mut self.todos, &mut todos);
                todos.remove(i);
                assert(todo_views(todos@) =~= before.todos.remove(i as int));
                core::mem::swap(&mut self.todos, &mut todos);
                Ok(())
            },
            None => {
                proof {
                    self@.lemma_delete_absent(id as nat);
                }
                Err(StoreError::NotFound)
            },
        }
    }
}

} // verus!
