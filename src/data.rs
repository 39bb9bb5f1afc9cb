use crate::clock::now_millis;
use crate::error::Error;
use crate::ids::{
    hex_digits, hyphenated_digits, is_random_uuid, parse_id, parsed_uuid, random_id, simple_text,
};
use vstd::prelude::*;

verus! {

/// A person record; the timestamp is in milliseconds since the Unix epoch.
#[derive(Debug, PartialEq, Eq)]
pub struct Person {
    pub id: String,
    pub fname: String,
    pub lname: String,
    pub timestamp: i64,
}

/// The fields a client sends to create or change a person.
#[derive(Debug, PartialEq, Eq)]
pub struct PersonRequest {
    pub fname: String,
    pub lname: String,
}

/// The body of a request that creates or renames a todo item.
#[derive(Debug)]
pub struct TodoRequest {
    pub name: String,
}

/// One item of a session's todo list. `id` is a 128-bit token, independent
/// of the session's; `timestamp` is in milliseconds since the Unix epoch.
#[derive(Debug, PartialEq, Eq)]
pub struct Todo {
    pub id: u128,
    pub name: String,
    pub timestamp: i64,
}

impl Todo {
    /// A new item with the given name, a freshly drawn identifier and the
    /// current time.
    pub fn new(name: &str) -> (r: Todo)
        ensures
            r.name@ == name@,
            is_random_uuid(r.id),
            r.timestamp >= 0,
    {
        Todo { id: random_id(), name: name.to_owned(), timestamp: now_millis() }
    }

    /// A new item from a request body.
    pub fn from_request(request: TodoRequest) -> (r: Todo)
        ensures
            r.name == request.name,
            is_random_uuid(r.id),
            r.timestamp >= 0,
    {
        Todo { id: random_id(), name: request.name, timestamp: now_millis() }
    }

    /// A copy of the item, equal to it in every field.
    pub fn duplicate(&self) -> (r: Todo)
        ensures
            r == *self,
    {
        Todo { id: self.id, name: self.name.clone(), timestamp: self.timestamp }
    }
}

/// An anonymous session identity: an opaque 128-bit token, compared by value.
#[derive(Debug, Clone, Copy, PartialEq, Eq, Structural)]
pub struct Session {
    pub id: u128,
}

impl Session {
    /// A fresh session with a randomly drawn token.
    pub fn new() -> (r: Session)
        ensures
            is_random_uuid(r.id),
    {
        Session { id: random_id() }
    }

    /// The session's token.
    pub fn id(&self) -> (r: u128)
        ensures
            r == self.id,
    {
        self.id
    }

    /// The session holding the given token.
    pub fn from_id(id: u128) -> (r: Session)
        ensures
            r.id == id,
    {
        Session { id }
    }

    /// Reads a token in uuid's text forms (hyphenated or not); a text the
    /// parser refuses is `InvalidIdentityFormat`.
    pub fn parse(text: &str) -> (r: Result<Session, Error>)
        ensures
            match parsed_uuid(text@) {
                Some(v) => r == Ok::<Session, Error>(Session { id: v }),
                None => r matches Err(Error::InvalidIdentityFormat),
            },
            forall|v: u128|
                #![trigger hex_digits(v as nat, 32)]
                #![trigger hyphenated_digits(v as nat)]
                text@ == hex_digits(v as nat, 32) || text@ == hyphenated_digits(v as nat) ==> r
                    == Ok::<Session, Error>(Session { id: v }),
    {
        match parse_id(text) {
            Some(v) => Ok(Session { id: v }),
            None => Err(Error::InvalidIdentityFormat),
        }
    }

    /// The session named by a cookie value. No cookie and a malformed cookie
    /// both give `None`: neither names a session.
    pub fn from_cookie(cookie: Option<&str>) -> (r: Option<Session>)
        ensures
            match cookie {
                None => r.is_none(),
                Some(t) => match parsed_uuid(t@) {
                    Some(v) => r == Some(Session { id: v }),
                    None => r.is_none(),
                },
            },
    {
        match cookie {
            None => None,
            Some(t) => match Session::parse(t) {
                Ok(s) => Some(s),
                Err(_) => None,
            },
        }
    }

    /// The token as 32 lower-case hex digits, the form a cookie carries.
    pub fn encode(&self) -> (r: String)
        ensures
            r@ == hex_digits(self.id as nat, 32),
    {
        simple_text(self.id)
    }
}

impl Default for Session {
    /// The all-zero token.
    fn default() -> (r: Session)
        ensures
            r.id == 0,
    {
        Session { id: 0 }
    }
}

/// A session's todo list: its owner and its items, oldest first.
#[derive(Debug)]
pub struct TodoList {
    pub session: Session,
    pub todos: Vec<Todo>,
}

} // verus!
