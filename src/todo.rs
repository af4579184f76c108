use vstd::prelude::*;

verus! {

/// How urgent a todo is; fixed when the todo is created.
#[derive(Clone, Copy, Debug, PartialEq, Eq, Structural)]
pub enum Priority {
    Low,
    Medium,
    High,
}

/// One task record.
///
/// `id` is the value of a 128-bit UUID; `created_at` and `updated_at` are
/// microseconds since the Unix epoch.
#[derive(Clone, Debug)]
pub struct Todo {
    pub id: u128,
    pub text: String,
    pub completed: bool,
    pub priority: Priority,
    pub created_at: i64,
    pub updated_at: i64,
}

/// What `char::is_whitespace` says of a character (the Unicode White_Space property).
pub uninterp spec fn whitespace(c: char) -> bool;

/// Relies on `char::is_whitespace`, which depends on the character alone.
#[verifier::external_body]
fn is_whitespace(c: char) -> (r: bool)
    ensures
        r == whitespace(c),
{
    c.is_whitespace()
}

/// A text is blank when nothing is left of it once surrounding whitespace is trimmed,
/// that is, when every character in it is whitespace.
pub open spec fn blank(s: Seq<char>) -> bool {
    forall|i: int| 0 <= i < s.len() ==> #[trigger] whitespace(s[i])
}

/// Tells whether `text` is empty or holds whitespace only.
pub fn is_blank(text: &str) -> (r: bool)
    ensures
        r == blank(text@),
{
    for c in it: text.chars()
        invariant
            it.seq() == text@,
            forall|j: int| 0 <= j < it.index() ==> #[trigger] whitespace(text@[j]),
    {
        if !is_whitespace(c) {
            return false;
        }
    }
    true
}

/// The update time that a change at clock reading `now` gives a record last updated at
/// `prev`: the clock reading when it is later than `prev`, else one microsecond after
/// `prev`, so that update times keep increasing even if the clock stalls or goes back.
/// At the largest representable instant the time stays where it is.
pub open spec fn stamp_after(prev: i64, now: i64) -> i64 {
    if now > prev {
        now
    } else if prev < i64::MAX {
        (prev + 1) as i64
    } else {
        prev
    }
}

/// Computes `stamp_after(prev, now)`.
pub fn next_stamp(prev: i64, now: i64) -> (r: i64)
    ensures
        r == stamp_after(prev, now),
        r >= prev,
        prev < i64::MAX ==> r > prev,
{
    if now > prev {
        now
    } else if prev < i64::MAX {
        prev + 1
    } else {
        prev
    }
}

impl Todo {
    /// A record's own invariant: its text is not blank and it was not updated
    /// before it was created.
    pub open spec fn wf(&self) -> bool {
        &&& !blank(self.text@)
        &&& self.created_at <= self.updated_at
    }

    /// The record with its completion flag flipped, as changed at clock reading `now`.
    pub open spec fn toggled(self, now: i64) -> Todo {
        Todo {
            id: self.id,
            text: self.text,
            completed: !self.completed,
            priority: self.priority,
            created_at: self.created_at,
            updated_at: stamp_after(self.updated_at, now),
        }
    }

    /// An owned copy of this record.
    pub fn snapshot(&self) -> (r: Todo)
        ensures
            r == *self,
    {
        Todo {
            id: self.id,
            text: self.text.clone(),
            completed: self.completed,
            priority: self.priority,
            created_at: self.created_at,
            updated_at: self.updated_at,
        }
    }
}

/// Why an operation on a todo list failed.
#[derive(Clone, Copy, Debug, PartialEq, Eq, Structural)]
pub enum TodoError {
    /// The text of a new todo was empty or whitespace only.
    EmptyText,
    /// No todo in the list has this id.
    NotFound { id: u128 },
}

/// The text that `uuid::Uuid`'s `Display` gives for the UUID with this 128-bit value.
pub uninterp spec fn uuid_text(id: u128) -> Seq<char>;

/// Relies on `uuid::Uuid::from_u128` and the `Display` impl of `uuid::Uuid` (the
/// hyphenated form), which depend on the value alone.
#[verifier::external_body]
fn format_uuid(id: u128) -> (r: String)
    ensures
        r@ == uuid_text(id),
{
    uuid::Uuid::from_u128(id).to_string()
}

/// The message that describes an error.
pub open spec fn error_message(e: TodoError) -> Seq<char> {
    match e {
        TodoError::EmptyText => "Todo text cannot be empty"@,
        TodoError::NotFound { id } => "Todo with id "@ + uuid_text(id) + " not found"@,
    }
}

impl TodoError {
    /// The message that describes this error.
    pub fn message(&self) -> (r: String)
        ensures
            r@ == error_message(*self),
    {
        match self {
            TodoError::EmptyText => String::from_str("Todo text cannot be empty"),
            TodoError::NotFound { id } => {
                let mut s = String::from_str("Todo with id ");
                let shown = format_uuid(*id);
                s.append(shown.as_str());
                s.append(" not found");
                s
            },
        }
    }
}

} // verus!
