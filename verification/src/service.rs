//! The service: what each request does to the store and what it is
//! answered with.
//!
//! | request                  | answer when the record is there | otherwise |
//! |--------------------------|---------------------------------|-----------|
//! | list                     | 200, every record               |           |
//! | create, with a title     | 200, the new record             |           |
//! | get, by identifier       | 200, the record                 | 404       |
//! | update, by identifier    | 200, the record as it then is   | 404       |
//! | delete, by identifier    | 204, nothing                    | 404       |

use crate::model::StoreView;
use crate::store::{todo_views, Store};
use crate::todo::{Todo, TodoView, UpdateTodo, UpdateView};
use vstd::prelude::*;

verus! {

/// A request against the store.
#[derive(Debug, PartialEq, Eq)]
pub enum Request {
    /// Asks for every record.
    List,
    /// Asks for a new record with this title.
    Create { title: String },
    /// Asks for the record with this identifier.
    Get { id: u32 },
    /// Asks to replace fields of the record with this identifier.
    Update { id: u32, changes: UpdateTodo },
    /// Asks to remove the record with this identifier.
    Delete { id: u32 },
}

/// What a request is.
pub enum RequestView {
    List,
    Create { title: Seq<char> },
    Get { id: nat },
    Update { id: nat, changes: UpdateView },
    Delete { id: nat },
}

impl View for Request {
    type V = RequestView;

    open spec fn view(&self) -> RequestView {
        match *self {
            Request::List => RequestView::List,
            Request::Create { title } => RequestView::Create { title: title@ },
            Request::Get { id } => RequestView::Get { id: id as nat },
            Request::Update { id, changes } => RequestView::Update {
                id: id as nat,
                changes: changes@,
            },
            Request::Delete { id } => RequestView::Delete { id: id as nat },
        }
    }
}

/// The answer to a request.
#[derive(Debug, PartialEq, Eq)]
pub enum Response {
    /// Every record of the store, oldest first.
    Todos(Vec<Todo>),
    /// One record.
    Todo(Todo),
    /// The request was carried out and there is nothing to send.
    NoContent,
    /// The store holds no record with the identifier that was asked for.
    NotFound,
}

/// What an answer is.
pub enum ResponseView {
    Todos(Seq<TodoView>),
    Todo(TodoView),
    NoContent,
    NotFound,
}

impl View for Response {
    type V = ResponseView;

    open spec fn view(&self) -> ResponseView {
        match *self {
            Response::Todos(todos) => ResponseView::Todos(todo_views(todos@)),
            Response::Todo(todo) => ResponseView::Todo(todo@),
            Response::NoContent => ResponseView::NoContent,
            Response::NotFound => ResponseView::NotFound,
        }
    }
}

impl ResponseView {
    /// The status code that the answer is sent with.
    pub open spec fn status(self) -> nat {
        match self {
            ResponseView::Todos(_) => 200,
            ResponseView::Todo(_) => 200,
            ResponseView::NoContent => 204,
            ResponseView::NotFound => 404,
        }
    }
}

impl Response {
    /// The status code that the answer is sent with.
    pub fn status(&self) -> (code: u16)
        ensures
            code == self@.status(),
    {
        match self {
            Response::Todos(_) => 200,
            Response::Todo(_) => 200,
            Response::NoContent => 204,
            Response::NotFound => 404,
        }
    }
}

impl StoreView {
    /// The answer that the store gives to a request.
    pub open spec fn reply(self, request: RequestView) -> ResponseView {
        match request {
            RequestView::List => ResponseView::Todos(self.todos),
            RequestView::Create { title } => ResponseView::Todo(self.created(title)),
            RequestView::Get { id } => match self.lookup(id) {
                Some(todo) => ResponseView::Todo(todo),
                None => ResponseView::NotFound,
            },
            RequestView::Update { id, changes } => match self.lookup(id) {
                Some(todo) => ResponseView::Todo(changes.apply(todo)),
                None => ResponseView::NotFound,
            },
            RequestView::Delete { id } => if self.contains_id(id) {
                ResponseView::NoContent
            } else {
                ResponseView::NotFound
            },
        }
    }

    /// The store after it has served a request.
    pub open spec fn after(self, request: RequestView) -> StoreView {
        match request {
            RequestView::List => self,
            RequestView::Create { title } => self.create(title),
            RequestView::Get { id } => self,
            RequestView::Update { id, changes } => self.update(id, changes),
            RequestView::Delete { id } => self.delete(id),
        }
    }

    /// The store after it has served a sequence of requests, first to last.
    pub open spec fn after_all(self, requests: Seq<RequestView>) -> StoreView
        decreases requests.len(),
    {
        if requests.len() == 0 {
            self
        } else {
            self.after_all(requests.drop_last()).after(requests.last())
        }
    }

    /// Whether the store has an identifier left for what the request asks.
    /// Only a creation needs one.
    pub open spec fn can_serve(self, request: RequestView) -> bool {
        request is Create ==> self.issued < u32::MAX
    }
}

/// The text that greets a visitor of the service's front page.
pub fn greeting() -> (text: &'static str)
    ensures
        text@ == "Hello, world!"@,
{
    "Hello, world!"
}

impl Store {
    /// Serves a request: does to the store what the request asks, and
    /// returns the answer. Returns `None`, and leaves the store as it
    /// was, when a creation is asked of a store that has no identifier left.
    pub fn handle(&mut self, request: Request) -> (answer: Option<Response>)
        ensures
            final(self)@.well_formed(),
            answer is Some <==> old(self)@.can_serve(request@),
            match answer {
                Some(response) => response@ == old(self)@.reply(request@) && final(self)@ == old(
                    self,
                )@.after(request@),
                None => final(self)@ == old(self)@,
            },
    {
        match request {
            Request::List => Some(Response::Todos(self.list())),
            Request::Create { title } => {
                if self.is_full() {
                    None
                } else {
                    Some(Response::Todo(self.create(title)))
                }
            },
            Request::Get { id } => match self.get(id) {
                Ok(todo) => Some(Response::Todo(todo)),
                Err(_) => Some(Response::NotFound),
            },
            Request::Update { id, changes } => match self.update(id, changes) {
                Ok(todo) => Some(Response::Todo(todo)),
                Err(_) => Some(Response::NotFound),
            },
            Request::Delete { id } => match self.delete(id) {
                Ok(_) => Some(Response::NoContent),
                Err(_) => Some(Response::NotFound),
            },
        }
    }
}

} // verus!
