use vstd::prelude::*;
use vstd::string::StringExecFns;

verus! {

/// Milliseconds since the Unix epoch, UTC.
pub type Timestamp = i64;

/// Review state of a translation entry. Any state may follow any other.
#[derive(Debug, Clone, Copy, PartialEq, Eq, Structural)]
pub enum TranslationStatus {
    Draft,
    Validated,
    Approved,
}

/// Author of a stored chat turn.
#[derive(Debug, Clone, Copy, PartialEq, Eq, Structural)]
pub enum ChatRole {
    User,
    Assistant,
}

/// The stored text of a status.
pub open spec fn status_text(s: TranslationStatus) -> Seq<char> {
    match s {
        TranslationStatus::Draft => "Draft"@,
        TranslationStatus::Validated => "Validated"@,
        TranslationStatus::Approved => "Approved"@,
    }
}

/// Reading a stored status back: unknown text falls back to `Draft`.
pub open spec fn status_of_text(t: Seq<char>) -> TranslationStatus {
    if t == "Validated"@ {
        TranslationStatus::Validated
    } else if t == "Approved"@ {
        TranslationStatus::Approved
    } else {
        TranslationStatus::Draft
    }
}

/// The stored text of a role.
pub open spec fn role_text(r: ChatRole) -> Seq<char> {
    match r {
        ChatRole::User => "User"@,
        ChatRole::Assistant => "Assistant"@,
    }
}

/// Reading a stored role back: unknown text falls back to `User`.
pub open spec fn role_of_text(t: Seq<char>) -> ChatRole {
    if t == "Assistant"@ {
        ChatRole::Assistant
    } else {
        ChatRole::User
    }
}

pub(crate) fn same_text(a: &str, b: &str) -> (r: bool)
    ensures
        r == (a@ == b@),
{
    let x = String::from_str(a);
    let y = String::from_str(b);
    x == y
}

impl TranslationStatus {
    /// The text under which this status is stored.
    pub fn to_stored(&self) -> (r: String)
        ensures
            r@ == status_text(*self),
    {
        match self {
            TranslationStatus::Draft => String::from_str("Draft"),
            TranslationStatus::Validated => String::from_str("Validated"),
            TranslationStatus::Approved => String::from_str("Approved"),
        }
    }

    /// Parses stored text; anything unrecognised reads as `Draft`.
    pub fn from_stored(t: &str) -> (r: TranslationStatus)
        ensures
            r == status_of_text(t@),
    {
        if same_text(t, "Validated") {
            TranslationStatus::Validated
        } else if same_text(t, "Approved") {
            TranslationStatus::Approved
        } else {
            TranslationStatus::Draft
        }
    }
}

impl ChatRole {
    /// The text under which this role is stored.
    pub fn to_stored(&self) -> (r: String)
        ensures
            r@ == role_text(*self),
    {
        match self {
            ChatRole::User => String::from_str("User"),
            ChatRole::Assistant => String::from_str("Assistant"),
        }
    }

    /// Parses stored text; anything unrecognised reads as `User`.
    pub fn from_stored(t: &str) -> (r: ChatRole)
        ensures
            r == role_of_text(t@),
    {
        if same_text(t, "Assistant") {
            ChatRole::Assistant
        } else {
            ChatRole::User
        }
    }
}

/// The characters of an optional text.
pub open spec fn opt_text(o: Option<String>) -> Option<Seq<char>> {
    match o {
        Some(s) => Some(s@),
        None => None,
    }
}

pub fn copy_opt_text(o: &Option<String>) -> (r: Option<String>)
    ensures
        opt_text(r) == opt_text(*o),
{
    match o {
        Some(s) => Some(s.clone()),
        None => None,
    }
}

/// A top-level grouping of translations and chat history.
#[derive(Debug, Clone)]
pub struct Project {
    pub id: String,
    pub name: String,
    pub description: Option<String>,
    pub created_at: Timestamp,
    pub updated_at: Timestamp,
}

pub struct ProjectView {
    pub id: Seq<char>,
    pub name: Seq<char>,
    pub description: Option<Seq<char>>,
    pub created_at: Timestamp,
    pub updated_at: Timestamp,
}

impl View for Project {
    type V = ProjectView;

    open spec fn view(&self) -> ProjectView {
        ProjectView {
            id: self.id@,
            name: self.name@,
            description: opt_text(self.description),
            created_at: self.created_at,
            updated_at: self.updated_at,
        }
    }
}

impl Project {
    /// An independent copy with the same contents.
    pub fn duplicate(&self) -> (r: Project)
        ensures
            r@ == self@,
    {
        Project {
            id: self.id.clone(),
            name: self.name.clone(),
            description: copy_opt_text(&self.description),
            created_at: self.created_at,
            updated_at: self.updated_at,
        }
    }
}

/// One source-text unit of a project and its evolving translation.
#[derive(Debug, Clone)]
pub struct Translation {
    pub id: String,
    pub project_id: String,
    pub source_text: String,
    pub target_text: Option<String>,
    pub notes: Option<String>,
    pub status: TranslationStatus,
    pub created_at: Timestamp,
    pub updated_at: Timestamp,
}

pub struct TranslationView {
    pub id: Seq<char>,
    pub project_id: Seq<char>,
    pub source_text: Seq<char>,
    pub target_text: Option<Seq<char>>,
    pub notes: Option<Seq<char>>,
    pub status: TranslationStatus,
    pub created_at: Timestamp,
    pub updated_at: Timestamp,
}

impl View for Translation {
    type V = TranslationView;

    open spec fn view(&self) -> TranslationView {
        TranslationView {
            id: self.id@,
            project_id: self.project_id@,
            source_text: self.source_text@,
            target_text: opt_text(self.target_text),
            notes: opt_text(self.notes),
            status: self.status,
            created_at: self.created_at,
            updated_at: self.updated_at,
        }
    }
}

impl Translation {
    /// An independent copy with the same contents.
    pub fn duplicate(&self) -> (r: Translation)
        ensures
            r@ == self@,
    {
        Translation {
            id: self.id.clone(),
            project_id: self.project_id.clone(),
            source_text: self.source_text.clone(),
            target_text: copy_opt_text(&self.target_text),
            notes: copy_opt_text(&self.notes),
            status: self.status,
            created_at: self.created_at,
            updated_at: self.updated_at,
        }
    }
}

/// One stored turn of a project's conversation.
#[derive(Debug, Clone)]
pub struct ChatMessage {
    pub id: String,
    pub project_id: String,
    pub role: ChatRole,
    pub content: String,
    pub created_at: Timestamp,
}

pub struct ChatMessageView {
    pub id: Seq<char>,
    pub project_id: Seq<char>,
    pub role: ChatRole,
    pub content: Seq<char>,
    pub created_at: Timestamp,
}

impl View for ChatMessage {
    type V = ChatMessageView;

    open spec fn view(&self) -> ChatMessageView {
        ChatMessageView {
            id: self.id@,
            project_id: self.project_id@,
            role: self.role,
            content: self.content@,
            created_at: self.created_at,
        }
    }
}

impl ChatMessage {
    /// An independent copy with the same contents.
    pub fn duplicate(&self) -> (r: ChatMessage)
        ensures
            r@ == self@,
    {
        ChatMessage {
            id: self.id.clone(),
            project_id: self.project_id.clone(),
            role: self.role,
            content: self.content.clone(),
            created_at: self.created_at,
        }
    }
}

/// Failures of the store.
#[derive(Debug, Clone, PartialEq, Eq)]
pub enum StorageError {
    /// A row with this primary key already exists.
    DuplicateId(String),
    /// The owning project does not exist.
    UnknownProject(String),
}

/// The human-readable description of a storage failure.
pub open spec fn storage_error_text(e: StorageError) -> Seq<char> {
    match e {
        StorageError::DuplicateId(id) => "duplicate id: "@ + id@,
        StorageError::UnknownProject(id) => "unknown project: "@ + id@,
    }
}

impl StorageError {
    /// A human-readable description.
    pub fn message(&self) -> (r: String)
        ensures
            r@ == storage_error_text(*self),
    {
        match self {
            StorageError::DuplicateId(id) => {
                let mut m = String::from_str("duplicate id: ");
                m.append(id.as_str());
                m
            },
            StorageError::UnknownProject(id) => {
                let mut m = String::from_str("unknown project: ");
                m.append(id.as_str());
                m
            },
        }
    }
}

} // verus!
