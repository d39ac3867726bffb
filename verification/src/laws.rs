//! What a client of the service may rely on, proved over the model of the
//! store for every store and every sequence of requests.

use crate::model::StoreView;
use crate::service::{RequestView, ResponseView};
use crate::todo::{TodoView, UpdateView};
use vstd::prelude::*;

verus! {

/// How many of the requests ask for a creation.
pub open spec fn creations(requests: Seq<RequestView>) -> nat
    decreases requests.len(),
{
    if requests.len() == 0 {
        0
    } else if requests.last() is Create {
        creations(requests.drop_last()) + 1
    } else {
        creations(requests.drop_last())
    }
}

/// The answer to the request at place `k` of the requests, served in their
/// order by a store that was empty at first.
pub open spec fn answer_at(requests: Seq<RequestView>, k: int) -> ResponseView {
    StoreView::empty().after_all(requests.take(k)).reply(requests[k])
}

/// Whether one of the requests, served in their order by a store that was
/// empty at first, created the record with the identifier `id`.
pub open spec fn creates(requests: Seq<RequestView>, id: nat) -> bool {
    exists|k: int|
        {
            &&& 0 <= k < requests.len()
            &&& requests[k] is Create
            &&& #[trigger] answer_at(requests, k) is Todo
            &&& answer_at(requests, k)->Todo_0.id == id
        }
}

/// Whether a request asks to change or to remove the record with the
/// identifier `id`.
pub open spec fn touches(request: RequestView, id: nat) -> bool {
    match request {
        RequestView::Update { id: target, .. } => target == id,
        RequestView::Delete { id: target } => target == id,
        _ => false,
    }
}

/// A well-formed store is well formed after any request.
pub proof fn lemma_request_keeps_well_formed(store: StoreView, request: RequestView)
    requires
        store.well_formed(),
    ensures
        store.after(request).well_formed(),
        store.after(request).issued >= store.issued,
{
    match request {
        RequestView::Create { title } => store.lemma_create(title),
        RequestView::Update { id, changes } => store.lemma_update(id, changes),
        RequestView::Delete { id } => store.lemma_delete(id),
        _ => {},
    }
}

/// A well-formed store is well formed after any sequence of requests, and
/// has handed out one more identifier for each creation among them.
pub proof fn lemma_requests_keep_well_formed(store: StoreView, requests: Seq<RequestView>)
    requires
        store.well_formed(),
    ensures
        store.after_all(requests).well_formed(),
        store.after_all(requests).issued == store.issued + creations(requests),
    decreases requests.len(),
{
    if requests.len() > 0 {
        lemma_requests_keep_well_formed(store, requests.drop_last());
        lemma_request_keeps_well_formed(store.after_all(requests.drop_last()), requests.last());
    }
}

/// Whatever requests a store has served since it was empty, no two of its
/// records share an identifier.
pub proof fn lemma_identifiers_are_unique(requests: Seq<RequestView>)
    ensures
        ({
            let todos = StoreView::empty().after_all(requests).todos;
            forall|i: int, j: int|
                0 <= i < j < todos.len() ==> (#[trigger] todos[i]).id != (#[trigger] todos[j]).id
        }),
{
    lemma_requests_keep_well_formed(StoreView::empty(), requests);
}

/// A creation is answered with a record that bears the title that was
/// given and is not completed, and a request for that record's identifier
/// is then answered with the same record.
pub proof fn lemma_create_then_get(store: StoreView, title: Seq<char>)
    requires
        store.well_formed(),
    ensures
        ({
            let create = RequestView::Create { title };
            let todo = TodoView { id: store.issued + 1, title, completed: false };
            &&& store.reply(create) == ResponseView::Todo(todo)
            &&& store.after(create).reply(RequestView::Get { id: todo.id }) == ResponseView::Todo(
                todo,
            )
        }),
{
    store.lemma_create(title);
}

/// A request for a record is answered from the list: with the one record
/// of the list that bears the identifier, and with "not found" when the
/// list holds none.
pub proof fn lemma_get_agrees_with_list(store: StoreView, id: nat, todo: TodoView)
    requires
        store.well_formed(),
    ensures
        store.reply(RequestView::Get { id }) == ResponseView::Todo(todo) <==> store.todos.contains(
            todo,
        ) && todo.id == id,
        store.reply(RequestView::Get { id }) == ResponseView::NotFound <==> forall|i: int|
            0 <= i < store.todos.len() ==> (#[trigger] store.todos[i]).id != id,
{
    store.lemma_lookup_is_member(id, todo);
}

/// An update of a record that the store holds is answered with the record
/// as it then is, and that is how the store then holds it: each field that
/// the update supplies has the value supplied, each other field and the
/// identifier are as before. No other record changes.
pub proof fn lemma_update_is_partial(store: StoreView, id: nat, changes: UpdateView)
    requires
        store.well_formed(),
        store.lookup(id) is Some,
    ensures
        ({
            let update = RequestView::Update { id, changes };
            let before = store.lookup(id).unwrap();
            let now = changes.apply(before);
            &&& store.reply(update) == ResponseView::Todo(now)
            &&& store.after(update).lookup(id) == Some(now)
            &&& now.id == id
            &&& now.title == if changes.title is Some {
                changes.title.unwrap()
            } else {
                before.title
            }
            &&& now.completed == if changes.completed is Some {
                changes.completed.unwrap()
            } else {
                before.completed
            }
            &&& forall|other: nat|
                other != id ==> #[trigger] store.after(update).lookup(other) == store.lookup(other)
        }),
{
    store.lemma_update(id, changes);
    let p = store.position(id);
    store.lemma_lookup_at(p);
}

/// An update that supplies no field leaves the store as it was, and is
/// answered with the record as it was.
pub proof fn lemma_update_of_nothing(store: StoreView, id: nat)
    ensures
        ({
            let update = RequestView::Update { id, changes: UpdateView::nothing() };
            &&& store.after(update) == store
            &&& store.reply(update) == store.reply(RequestView::Get { id })
        }),
{
    let after = store.update(id, UpdateView::nothing());
    assert(after.todos =~= store.todos);
}

/// Once a deletion has removed a record, its identifier is not found
/// again, whatever requests the store serves afterwards: a request for the
/// record, an update of it and a second deletion are all answered with
/// "not found".
pub proof fn lemma_deleted_stays_gone(
    store: StoreView,
    id: nat,
    later: Seq<RequestView>,
    changes: UpdateView,
)
    requires
        store.well_formed(),
        store.reply(RequestView::Delete { id }) == ResponseView::NoContent,
    ensures
        ({
            let end = store.after(RequestView::Delete { id }).after_all(later);
            &&& end.reply(RequestView::Get { id }) == ResponseView::NotFound
            &&& end.reply(RequestView::Update { id, changes }) == ResponseView::NotFound
            &&& end.reply(RequestView::Delete { id }) == ResponseView::NotFound
        }),
{
    let p = store.position(id);
    assert(1 <= store.todos[p].id <= store.issued);
    store.lemma_delete(id);
    lemma_retired_stays_absent(store.delete(id), id, later);
}

/// An identifier that was handed out and is not in the store is not in the
/// store after any sequence of requests.
pub proof fn lemma_retired_stays_absent(store: StoreView, id: nat, later: Seq<RequestView>)
    requires
        store.well_formed(),
        id <= store.issued,
        !store.contains_id(id),
    ensures
        !store.after_all(later).contains_id(id),
    decreases later.len(),
{
    if later.len() > 0 {
        let before = store.after_all(later.drop_last());
        lemma_retired_stays_absent(store, id, later.drop_last());
        lemma_requests_keep_well_formed(store, later.drop_last());
        match later.last() {
            RequestView::Create { title } => before.lemma_create(title),
            RequestView::Update { id: target, changes } => before.lemma_update(target, changes),
            RequestView::Delete { id: target } => before.lemma_delete(target),
            _ => {},
        }
        assert(before.lookup(id) is None);
        assert(before.after(later.last()).lookup(id) is None);
    }
}

/// An identifier that the store has not handed out is not found: a
/// request for it, an update of it and a deletion of it are all answered
/// with "not found".
pub proof fn lemma_unissued_is_not_found(store: StoreView, id: nat, changes: UpdateView)
    requires
        store.well_formed(),
        id == 0 || id > store.issued,
    ensures
        store.reply(RequestView::Get { id }) == ResponseView::NotFound,
        store.reply(RequestView::Update { id, changes }) == ResponseView::NotFound,
        store.reply(RequestView::Delete { id }) == ResponseView::NotFound,
{
    store.lemma_unissued_is_absent(id);
}

/// Every identifier that a store has handed out since it was empty was
/// given to a record that one of its requests created.
pub proof fn lemma_issued_was_created(requests: Seq<RequestView>, id: nat)
    requires
        1 <= id <= StoreView::empty().after_all(requests).issued,
    ensures
        creates(requests, id),
    decreases requests.len(),
{
    if requests.len() > 0 {
        let earlier = requests.drop_last();
        let before = StoreView::empty().after_all(earlier);
        if id <= before.issued {
            lemma_issued_was_created(earlier, id);
            let k = choose|k: int|
                {
                    &&& 0 <= k < earlier.len()
                    &&& earlier[k] is Create
                    &&& #[trigger] answer_at(earlier, k) is Todo
                    &&& answer_at(earlier, k)->Todo_0.id == id
                };
            assert(requests.take(k) =~= earlier.take(k));
            assert(answer_at(requests, k) == answer_at(earlier, k));
        } else {
            let k = requests.len() - 1;
            assert(requests.take(k) =~= earlier);
            assert(requests[k] is Create);
            assert(answer_at(requests, k) is Todo && answer_at(requests, k)->Todo_0.id == id);
        }
    }
}

/// An identifier that no request ever created is not found, whatever
/// requests the store has served since it was empty.
pub proof fn lemma_never_created_is_not_found(
    requests: Seq<RequestView>,
    id: nat,
    changes: UpdateView,
)
    requires
        !creates(requests, id),
    ensures
        ({
            let store = StoreView::empty().after_all(requests);
            &&& store.reply(RequestView::Get { id }) == ResponseView::NotFound
            &&& store.reply(RequestView::Update { id, changes }) == ResponseView::NotFound
            &&& store.reply(RequestView::Delete { id }) == ResponseView::NotFound
        }),
{
    let store = StoreView::empty().after_all(requests);
    lemma_requests_keep_well_formed(StoreView::empty(), requests);
    if 1 <= id <= store.issued {
        lemma_issued_was_created(requests, id);
    }
    lemma_unissued_is_not_found(store, id, changes);
}

/// The state in which the record with the identifier `id` was last seen
/// in an answer that made or changed it, among the requests served in their
/// order by a store that was empty at first: the answer to the last
/// creation that gave it this identifier, or to the last update of it that
/// found it, whichever came later.
pub open spec fn last_state(requests: Seq<RequestView>, id: nat) -> Option<TodoView>
    decreases requests.len(),
{
    if requests.len() == 0 {
        None
    } else {
        let answer = answer_at(requests, requests.len() - 1);
        let shown = match requests.last() {
            RequestView::Create { .. } => answer is Todo && answer->Todo_0.id == id,
            RequestView::Update { id: target, .. } => answer is Todo && target == id,
            _ => false,
        };
        if shown {
            Some(answer->Todo_0)
        } else {
            last_state(requests.drop_last(), id)
        }
    }
}

/// A record that the store holds is held unchanged after any sequence of
/// requests of which none updates or deletes it.
pub proof fn lemma_untouched_is_kept(store: StoreView, id: nat, later: Seq<RequestView>)
    requires
        store.well_formed(),
        store.lookup(id) is Some,
        forall|k: int| 0 <= k < later.len() ==> !touches(#[trigger] later[k], id),
    ensures
        store.after_all(later).lookup(id) == store.lookup(id),
    decreases later.len(),
{
    if later.len() > 0 {
        let earlier = later.drop_last();
        assert forall|k: int| 0 <= k < earlier.len() implies !touches(#[trigger] earlier[k], id) by {
            assert(earlier[k] == later[k]);
        }
        lemma_untouched_is_kept(store, id, earlier);
        lemma_requests_keep_well_formed(store, earlier);
        let before = store.after_all(earlier);
        assert(!touches(later.last(), id));
        match later.last() {
            RequestView::Create { title } => {
                let p = before.position(id);
                assert(1 <= before.todos[p].id <= before.issued);
                before.lemma_create(title);
            },
            RequestView::Update { id: target, changes } => before.lemma_update(target, changes),
            RequestView::Delete { id: target } => before.lemma_delete(target),
            _ => {},
        }
    }
}

/// As long as a record is not deleted, the store holds it in the state in
/// which it was last seen, and holds no record that was never seen.
pub proof fn lemma_store_holds_last_state(requests: Seq<RequestView>, id: nat)
    requires
        forall|k: int|
            0 <= k < requests.len() ==> #[trigger] requests[k] != (RequestView::Delete { id }),
    ensures
        StoreView::empty().after_all(requests).lookup(id) == last_state(requests, id),
    decreases requests.len(),
{
    if requests.len() > 0 {
        let earlier = requests.drop_last();
        assert forall|k: int| 0 <= k < earlier.len() implies #[trigger] earlier[k] != (
        RequestView::Delete { id }) by {
            assert(earlier[k] == requests[k]);
        }
        lemma_store_holds_last_state(earlier, id);
        lemma_requests_keep_well_formed(StoreView::empty(), earlier);
        let before = StoreView::empty().after_all(earlier);
        assert(requests.take(requests.len() - 1) =~= earlier);
        assert(answer_at(requests, requests.len() - 1) == before.reply(requests.last()));
        assert(requests.last() == requests[requests.len() - 1]);
        match requests.last() {
            RequestView::Create { title } => before.lemma_create(title),
            RequestView::Update { id: target, changes } => before.lemma_update(target, changes),
            RequestView::Delete { id: target } => before.lemma_delete(target),
            _ => {},
        }
    }
}

/// While nothing is deleted, the records of a store that was empty at
/// first bear the identifiers one, two, three and so on, in this order,
/// one for each creation.
pub proof fn lemma_identifiers_without_deletion(requests: Seq<RequestView>)
    requires
        forall|k: int| 0 <= k < requests.len() ==> !(#[trigger] requests[k] is Delete),
    ensures
        StoreView::empty().after_all(requests).todos.len() == creations(requests),
        forall|i: int|
            0 <= i < creations(requests) ==> (#[trigger] StoreView::empty().after_all(
                requests,
            ).todos[i]).id == i + 1,
    decreases requests.len(),
{
    if requests.len() > 0 {
        let earlier = requests.drop_last();
        assert forall|k: int| 0 <= k < earlier.len() implies !(#[trigger] earlier[k] is Delete) by {
            assert(earlier[k] == requests[k]);
        }
        lemma_identifiers_without_deletion(earlier);
        lemma_requests_keep_well_formed(StoreView::empty(), earlier);
        let before = StoreView::empty().after_all(earlier);
        let after = StoreView::empty().after_all(requests);
        assert(requests.last() == requests[requests.len() - 1]);
        match requests.last() {
            RequestView::Update { id, changes } => {
                before.lemma_update(id, changes);
                assert forall|i: int| 0 <= i < creations(requests) implies (
                #[trigger] after.todos[i]).id == i + 1 by {
                    assert(before.todos[i].id == i + 1);
                }
            },
            RequestView::Create { title } => {
                assert forall|i: int| 0 <= i < creations(requests) implies (
                #[trigger] after.todos[i]).id == i + 1 by {
                    if i < creations(earlier) {
                        assert(before.todos[i].id == i + 1);
                    }
                }
            },
            _ => {},
        }
    }
}

/// After N creations and no deletion since the store was empty, the list
/// holds exactly N records, the oldest first, each in the state in which
/// it was last seen.
pub proof fn lemma_list_is_complete(requests: Seq<RequestView>)
    requires
        forall|k: int| 0 <= k < requests.len() ==> !(#[trigger] requests[k] is Delete),
    ensures
        ({
            let todos = StoreView::empty().after_all(requests).todos;
            &&& StoreView::empty().after_all(requests).reply(RequestView::List)
                == ResponseView::Todos(todos)
            &&& todos.len() == creations(requests)
            &&& forall|i: int|
                0 <= i < todos.len() ==> (#[trigger] todos[i]).id == i + 1 && last_state(
                    requests,
                    (i + 1) as nat,
                ) == Some(todos[i])
        }),
{
    let store = StoreView::empty().after_all(requests);
    lemma_identifiers_without_deletion(requests);
    lemma_requests_keep_well_formed(StoreView::empty(), requests);
    assert forall|i: int| 0 <= i < store.todos.len() implies (#[trigger] store.todos[i]).id == i
        + 1 && last_state(requests, (i + 1) as nat) == Some(store.todos[i]) by {
        let id = (i + 1) as nat;
        assert forall|k: int| 0 <= k < requests.len() implies #[trigger] requests[k] != (
        RequestView::Delete { id }) by {
            assert(!(requests[k] is Delete));
        }
        lemma_store_holds_last_state(requests, id);
        store.lemma_lookup_at(i);
    }
}

} // verus!
