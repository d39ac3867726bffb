//! The mathematical model of the store: a sequence of records in the order
//! of their creation, and the number of identifiers handed out so far.
//!
//! Identifiers are handed out in increasing order, starting at one, and are
//! never handed out again, so that no two records of a store ever share one.

use crate::todo::{TodoView, UpdateView};
use vstd::prelude::*;

verus! {

/// What a store is.
pub struct StoreView {
    /// The records, oldest first.
    pub todos: Seq<TodoView>,
    /// How many identifiers have been handed out. The next one is this
    /// number plus one.
    pub issued: nat,
}

/// The records that do not bear the identifier `id`.
pub open spec fn other_than(id: nat) -> spec_fn(TodoView) -> bool {
    |todo: TodoView| todo.id != id
}

/// What an update with the identifier `id` does to one record.
pub open spec fn change_of(id: nat, changes: UpdateView) -> spec_fn(TodoView) -> TodoView {
    |todo: TodoView|
        if todo.id == id {
            changes.apply(todo)
        } else {
            todo
        }
}

impl StoreView {
    /// The store that holds nothing and has handed out no identifier.
    pub open spec fn empty() -> StoreView {
        StoreView { todos: Seq::empty(), issued: 0 }
    }

    /// Every record bears an identifier that was handed out, and no two
    /// records bear the same one.
    pub open spec fn well_formed(self) -> bool {
        &&& forall|i: int|
            0 <= i < self.todos.len() ==> 1 <= (#[trigger] self.todos[i]).id <= self.issued
        &&& forall|i: int, j: int|
            0 <= i < j < self.todos.len() ==> (#[trigger] self.todos[i]).id != (
            #[trigger] self.todos[j]).id
    }

    /// Whether some record bears the identifier `id`.
    pub open spec fn contains_id(self, id: nat) -> bool {
        exists|i: int| 0 <= i < self.todos.len() && (#[trigger] self.todos[i]).id == id
    }

    /// A place at which a record with the identifier `id` stands, if there
    /// is one. In a well-formed store there is at most one such place.
    pub open spec fn position(self, id: nat) -> int {
        choose|i: int| 0 <= i < self.todos.len() && (#[trigger] self.todos[i]).id == id
    }

    /// The record with the identifier `id`, if the store holds one.
    pub open spec fn lookup(self, id: nat) -> Option<TodoView> {
        if self.contains_id(id) {
            Some(self.todos[self.position(id)])
        } else {
            None
        }
    }

    /// The record that the next creation with this title adds.
    pub open spec fn created(self, title: Seq<char>) -> TodoView {
        TodoView { id: self.issued + 1, title, completed: false }
    }

    /// The store after a record with this title was created.
    pub open spec fn create(self, title: Seq<char>) -> StoreView {
        StoreView { todos: self.todos.push(self.created(title)), issued: self.issued + 1 }
    }

    /// The store after the record with the identifier `id` was updated.
    pub open spec fn update(self, id: nat, changes: UpdateView) -> StoreView {
        StoreView { todos: self.todos.map_values(change_of(id, changes)), issued: self.issued }
    }

    /// The store after every record with the identifier `id` was removed.
    pub open spec fn delete(self, id: nat) -> StoreView {
        StoreView { todos: self.todos.filter(other_than(id)), issued: self.issued }
    }
}

/// A filter that every element passes changes nothing.
proof fn lemma_filter_keeps_all<A>(s: Seq<A>, pred: spec_fn(A) -> bool)
    requires
        forall|i: int| 0 <= i < s.len() ==> pred(#[trigger] s[i]),
    ensures
        s.filter(pred) == s,
    decreases s.len(),
{
    reveal(Seq::filter);
    if s.len() > 0 {
        lemma_filter_keeps_all(s.drop_last(), pred);
        assert(s.drop_last().push(s.last()) =~= s);
    }
}

/// A filter that every element but the one at `k` passes removes that
/// element and nothing else.
proof fn lemma_filter_drops_one<A>(s: Seq<A>, pred: spec_fn(A) -> bool, k: int)
    requires
        0 <= k < s.len(),
        !pred(s[k]),
        forall|i: int| 0 <= i < s.len() && i != k ==> pred(#[trigger] s[i]),
    ensures
        s.filter(pred) == s.remove(k),
    decreases s.len(),
{
    reveal(Seq::filter);
    if k == s.len() - 1 {
        lemma_filter_keeps_all(s.drop_last(), pred);
        assert(s.remove(k) =~= s.drop_last());
    } else {
        lemma_filter_drops_one(s.drop_last(), pred, k);
        assert(s.drop_last().remove(k).push(s.last()) =~= s.remove(k));
    }
}

impl StoreView {
    /// In a well-formed store, the record at a place is the one that its
    /// identifier looks up.
    pub proof fn lemma_lookup_at(self, i: int)
        requires
            self.well_formed(),
            0 <= i < self.todos.len(),
        ensures
            self.contains_id(self.todos[i].id),
            self.position(self.todos[i].id) == i,
            self.lookup(self.todos[i].id) == Some(self.todos[i]),
    {
        let id = self.todos[i].id;
        let p = self.position(id);
        assert(0 <= p < self.todos.len() && self.todos[p].id == id);
        if p < i {
            assert(self.todos[p].id != self.todos[i].id);
        } else if i < p {
            assert(self.todos[i].id != self.todos[p].id);
        }
    }

    /// In a well-formed store, a lookup finds exactly the records that the
    /// store holds.
    pub proof fn lemma_lookup_is_member(self, id: nat, todo: TodoView)
        requires
            self.well_formed(),
        ensures
            self.lookup(id) == Some(todo) <==> self.todos.contains(todo) && todo.id == id,
    {
        if self.todos.contains(todo) && todo.id == id {
            let i = choose|i: int| 0 <= i < self.todos.len() && self.todos[i] == todo;
            self.lemma_lookup_at(i);
        }
        if self.lookup(id) == Some(todo) {
            let p = self.position(id);
            assert(0 <= p < self.todos.len() && self.todos[p].id == id);
            assert(self.todos[p] == todo);
        }
    }

    /// An identifier that was never handed out is not in the store.
    pub proof fn lemma_unissued_is_absent(self, id: nat)
        requires
            self.well_formed(),
            id == 0 || id > self.issued,
        ensures
            !self.contains_id(id),
            self.lookup(id) is None,
    {
    }

    /// Creation appends the new record and keeps the store well formed.
    pub proof fn lemma_create(self, title: Seq<char>)
        requires
            self.well_formed(),
        ensures
            self.create(title).well_formed(),
            self.create(title).lookup(self.issued + 1) == Some(self.created(title)),
            forall|id: nat|
                id != self.issued + 1 ==> #[trigger] self.create(title).lookup(id) == self.lookup(
                    id,
                ),
    {
        let after = self.create(title);
        let last = self.todos.len() as int;
        assert(after.todos[last] == self.created(title));
        after.lemma_lookup_at(last);
        assert forall|id: nat| id != self.issued + 1 implies #[trigger] after.lookup(id)
            == self.lookup(id) by {
            if self.contains_id(id) {
                let p = self.position(id);
                assert(after.todos[p] == self.todos[p]);
                after.lemma_lookup_at(p);
            } else if after.contains_id(id) {
                let p = after.position(id);
                assert(p < last);
                assert(self.todos[p].id == id);
            }
        }
    }

    /// An update of an identifier that the store does not hold changes
    /// nothing.
    pub proof fn lemma_update_absent(self, id: nat, changes: UpdateView)
        requires
            !self.contains_id(id),
        ensures
            self.update(id, changes) == self,
    {
        assert(self.update(id, changes).todos =~= self.todos);
    }

    /// An update replaces the record that bears the identifier, in its
    /// place, and leaves every other record as it was.
    pub proof fn lemma_update_at(self, i: int, changes: UpdateView)
        requires
            self.well_formed(),
            0 <= i < self.todos.len(),
        ensures
            self.update(self.todos[i].id, changes).todos == self.todos.update(
                i,
                changes.apply(self.todos[i]),
            ),
            self.update(self.todos[i].id, changes).well_formed(),
    {
        let id = self.todos[i].id;
        let after = self.update(id, changes);
        assert forall|j: int| 0 <= j < self.todos.len() implies #[trigger] after.todos[j]
            == self.todos.update(i, changes.apply(self.todos[i]))[j] by {
            if j < i {
                assert(self.todos[j].id != self.todos[i].id);
            } else if i < j {
                assert(self.todos[i].id != self.todos[j].id);
            }
        }
        assert(after.todos =~= self.todos.update(i, changes.apply(self.todos[i])));
        assert forall|j: int| 0 <= j < after.todos.len() implies #[trigger] after.todos[j].id
            == self.todos[j].id by {}
    }

    /// A deletion of an identifier that the store does not hold changes
    /// nothing.
    pub proof fn lemma_delete_absent(self, id: nat)
        requires
            !self.contains_id(id),
        ensures
            self.delete(id) == self,
    {
        lemma_filter_keeps_all(self.todos, other_than(id));
    }

    /// A deletion removes the record that bears the identifier and leaves
    /// every other record as it was, in its order.
    pub proof fn lemma_delete_at(self, i: int)
        requires
            self.well_formed(),
            0 <= i < self.todos.len(),
        ensures
            self.delete(self.todos[i].id).todos == self.todos.remove(i),
            self.delete(self.todos[i].id).well_formed(),
    {
        let id = self.todos[i].id;
        assert forall|j: int| 0 <= j < self.todos.len() && j != i implies other_than(id)(
            #[trigger] self.todos[j],
        ) by {
            if j < i {
                assert(self.todos[j].id != self.todos[i].id);
            } else {
                assert(self.todos[i].id != self.todos[j].id);
            }
        }
        lemma_filter_drops_one(self.todos, other_than(id), i);
        let rest = self.todos.remove(i);
        assert forall|j: int| 0 <= j < rest.len() implies 1 <= (#[trigger] rest[j]).id
            <= self.issued by {
            if j < i {
                assert(rest[j] == self.todos[j]);
            } else {
                assert(rest[j] == self.todos[j + 1]);
            }
        }
        assert forall|j: int, k: int| 0 <= j < k < rest.len() implies (#[trigger] rest[j]).id != (
        #[trigger] rest[k]).id by {
            let jj = if j < i { j } else { j + 1 };
            let kk = if k < i { k } else { k + 1 };
            assert(rest[j] == self.todos[jj]);
            assert(rest[k] == self.todos[kk]);
        }
    }

    /// An update changes the record that bears the identifier as the
    /// changes say, and changes no other record, nor how many there are.
    pub proof fn lemma_update(self, id: nat, changes: UpdateView)
        requires
            self.well_formed(),
        ensures
            self.update(id, changes).well_formed(),
            self.update(id, changes).todos.len() == self.todos.len(),
            self.update(id, changes).lookup(id) == match self.lookup(id) {
                Some(todo) => Some(changes.apply(todo)),
                None => None,
            },
            forall|other: nat|
                other != id ==> #[trigger] self.update(id, changes).lookup(other) == self.lookup(
                    other,
                ),
    {
        let after = self.update(id, changes);
        assert forall|j: int| 0 <= j < after.todos.len() implies (#[trigger] after.todos[j]).id
            == self.todos[j].id by {}
        assert forall|other: nat| #[trigger]
            after.lookup(other) == if other == id {
                match self.lookup(id) {
                    Some(todo) => Some(changes.apply(todo)),
                    None => None,
                }
            } else {
                self.lookup(other)
            } by {
            if self.contains_id(other) {
                let p = self.position(other);
                assert(after.todos[p].id == other);
                self.lemma_lookup_at(p);
                after.lemma_lookup_at(p);
            } else if after.contains_id(other) {
                let p = after.position(other);
                assert(self.todos[p].id == other);
            }
        }
    }

    /// A deletion removes the record that bears the identifier, if there is
    /// one, and changes no other record.
    pub proof fn lemma_delete(self, id: nat)
        requires
            self.well_formed(),
        ensures
            self.delete(id).well_formed(),
            self.delete(id).todos.len() == if self.contains_id(id) {
                self.todos.len() - 1
            } else {
                self.todos.len() as int
            },
            self.delete(id).lookup(id) is None,
            forall|other: nat|
                other != id ==> #[trigger] self.delete(id).lookup(other) == self.lookup(other),
    {
        if self.contains_id(id) {
            let i = self.position(id);
            self.lemma_delete_at(i);
            let after = self.delete(id);
            assert forall|q: int| 0 <= q < after.todos.len() implies #[trigger] after.todos[q]
                == self.todos[if q < i { q } else { q + 1 }] by {}
            assert forall|other: nat| #[trigger]
                after.lookup(other) == if other == id {
                    None
                } else {
                    self.lookup(other)
                } by {
                if after.contains_id(other) {
                    let q = after.position(other);
                    let p = if q < i { q } else { q + 1 };
                    assert(after.todos[q] == self.todos[p]);
                    self.lemma_lookup_at(p);
                    self.lemma_lookup_at(i);
                    after.lemma_lookup_at(q);
                } else if other != id && self.contains_id(other) {
                    let p = self.position(other);
                    let q = if p < i { p } else { p - 1 };
                    assert(after.todos[q] == self.todos[p]);
                }
            }
        } else {
            self.lemma_delete_absent(id);
        }
    }
}

} // verus!
