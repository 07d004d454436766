//! The session manager: the current session, its metadata, and the files a
//! session is kept in under the session directory (`<id>.json` for the
//! session, `<id>.jsonl` for its messages, each written through a hidden
//! temporary file). Reading and writing the files is the caller's part.
use vstd::prelude::*;

use crate::json::{field, field_views, set_field, Json, JsonValue};
use crate::message::opt_view;
use crate::paths::{join_path, joined};
use crate::session::Session;
use crate::text::{owned, push_str};

verus! {

/// Keeps the current session of a session directory.
pub struct SessionManager {
    session_dir: String,
    current_session: Option<Session>,
}

/// The string under `key` in metadata `fs`, where it is a string.
pub open spec fn metadata_text(fs: Seq<(Seq<char>, Json)>, key: Seq<char>) -> Option<Seq<char>> {
    match field(fs, key) {
        Some(Json::Str(v)) => Some(v),
        _ => None,
    }
}

impl SessionManager {
    /// The session directory.
    pub closed spec fn dir_view(&self) -> Seq<char> {
        self.session_dir@
    }

    /// The current session, if any.
    pub closed spec fn current(&self) -> Option<Session> {
        self.current_session
    }

    /// A manager of `session_dir` with no current session.
    pub fn new(session_dir: &str) -> (r: Self)
        ensures
            r.dir_view() == session_dir@,
            r.current() is None,
    {
        SessionManager { session_dir: owned(session_dir), current_session: None }
    }

    /// The session directory.
    pub fn session_dir(&self) -> (r: &str)
        ensures
            r@ == self.dir_view(),
    {
        self.session_dir.as_str()
    }

    /// The current session, if any.
    pub fn current_session(&self) -> (r: Option<&Session>)
        ensures
            match (r, self.current()) {
                (Some(a), Some(b)) => *a == b,
                (None, None) => true,
                _ => false,
            },
    {
        match &self.current_session {
            Some(s) => Some(s),
            None => None,
        }
    }

    /// Makes `session` the current session.
    pub fn set_current_session(&mut self, session: Session)
        ensures
            final(self).current() == Some(session),
            final(self).dir_view() == old(self).dir_view(),
    {
        self.current_session = Some(session);
    }

    /// Starts a new session and makes it the current one.
    pub fn create_session(&mut self) -> (r: &Session)
        ensures
            final(self).current() == Some(*r),
            final(self).dir_view() == old(self).dir_view(),
            r.messages@.len() == 0,
            r.metadata@.len() == 0,
            r.id@.len() == 12,
    {
        self.current_session = Some(Session::new());
        match &self.current_session {
            Some(s) => s,
            None => vstd::pervasive::unreached(),
        }
    }

    /// Stores a string under `key` in the current session's metadata (no
    /// effect without a current session).
    pub fn set_metadata(&mut self, key: &str, value: &str)
        ensures
            final(self).dir_view() == old(self).dir_view(),
            old(self).current() is None ==> final(self).current() is None,
            old(self).current() matches Some(s) ==> final(self).current() matches Some(t) && field_views(
                t.metadata@,
            ) == set_field(field_views(s.metadata@), key@, Json::Str(value@)) && t == (Session {
                metadata: t.metadata,
                ..s
            }),
    {
        match &mut self.current_session {
            Some(session) => {
                let mut fields: Vec<(String, JsonValue)> = Vec::new();
                std::mem::swap(&mut fields, &mut session.metadata);
                let mut obj = JsonValue::object(fields);
                obj.put(key, JsonValue::string(value));
                match obj {
                    JsonValue::Object(fs) => {
                        proof {
                            crate::json::lemma_object_view(fs);
                        }
                        session.metadata = fs;
                    },
                    _ => {},
                }
            },
            None => {},
        }
    }

    /// The string under `key` in the current session's metadata, if it is
    /// one.
    pub fn get_metadata(&self, key: &str) -> (r: Option<String>)
        ensures
            opt_view(r) == match self.current() {
                Some(s) => metadata_text(field_views(s.metadata@), key@),
                None => None,
            },
    {
        match &self.current_session {
            Some(session) => {
                let fs = &session.metadata;
                match crate::json::fields_get_str(fs, key) {
                    Some(v) => Some(owned(v)),
                    None => None,
                }
            },
            None => None,
        }
    }

    /// The file of session `id`'s metadata.
    pub fn json_file(&self, session_id: &str) -> (r: String)
        ensures
            r@ == joined(self.dir_view(), session_id@ + ".json"@),
    {
        let mut name = owned(session_id);
        push_str(&mut name, ".json");
        join_path(self.session_dir.as_str(), name.as_str())
    }

    /// The file of session `id`'s messages.
    pub fn jsonl_file(&self, session_id: &str) -> (r: String)
        ensures
            r@ == joined(self.dir_view(), session_id@ + ".jsonl"@),
    {
        let mut name = owned(session_id);
        push_str(&mut name, ".jsonl");
        join_path(self.session_dir.as_str(), name.as_str())
    }

    /// The temporary file that `file_name` (such as `<id>.json`) is written
    /// through before it is renamed into place.
    pub fn temp_file(&self, file_name: &str) -> (r: String)
        ensures
            r@ == joined(self.dir_view(), "."@ + file_name@ + ".tmp"@),
    {
        let mut name = owned(".");
        push_str(&mut name, file_name);
        push_str(&mut name, ".tmp");
        join_path(self.session_dir.as_str(), name.as_str())
    }
}

/// A value set in the metadata reads back as set.
pub proof fn law_metadata_read_back(fs: Seq<(Seq<char>, Json)>, key: Seq<char>, value: Seq<char>)
    ensures
        metadata_text(set_field(fs, key, Json::Str(value)), key) == Some(value),
{
    crate::json::lemma_set_field_found(fs, key, Json::Str(value));
}

} // verus!
