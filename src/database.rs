use vstd::prelude::*;
use crate::ambient::{fresh_id, now_millis};
use crate::model::{
    opt_text, same_text, ChatMessage, ChatMessageView, ChatRole, Project,
    ProjectView, StorageError, Timestamp, Translation, TranslationStatus, TranslationView,
};

verus! {

// ---------------------------------------------------------------- projects

pub open spec fn project_ids_unique(ps: Seq<ProjectView>) -> bool {
    forall|i: int, j: int|
        0 <= i < ps.len() && 0 <= j < ps.len() && i != j ==> ps[i].id != ps[j].id
}

/// Most recently touched first.
pub open spec fn newest_first(ps: Seq<ProjectView>) -> bool {
    forall|i: int, j: int| 0 <= i < j < ps.len() ==> ps[i].updated_at >= ps[j].updated_at
}

pub open spec fn has_project(ps: Seq<ProjectView>, id: Seq<char>) -> bool {
    exists|i: int| 0 <= i < ps.len() && ps[i].id == id
}

/// The project stored under `id`, if any.
pub open spec fn project_with_id(ps: Seq<ProjectView>, id: Seq<char>) -> Option<ProjectView> {
    if has_project(ps, id) {
        Some(ps[choose|i: int| 0 <= i < ps.len() && ps[i].id == id])
    } else {
        None
    }
}

pub open spec fn is_project_slot(ps: Seq<ProjectView>, t: Timestamp, k: int) -> bool {
    &&& 0 <= k <= ps.len()
    &&& forall|i: int| 0 <= i < k ==> ps[i].updated_at > t
    &&& forall|i: int| k <= i < ps.len() ==> ps[i].updated_at <= t
}

/// Where a project touched at `t` goes in a newest-first listing: after every
/// strictly newer one, before every other.
pub open spec fn project_slot(ps: Seq<ProjectView>, t: Timestamp) -> int {
    choose|k: int| is_project_slot(ps, t, k)
}

pub open spec fn opt_project_view(o: Option<Project>) -> Option<ProjectView> {
    match o {
        Some(p) => Some(p@),
        None => None,
    }
}

pub open spec fn projects_view_of(v: Seq<Project>) -> Seq<ProjectView> {
    v.map_values(|p: Project| p@)
}

pub proof fn lemma_project_slot(ps: Seq<ProjectView>, t: Timestamp, k: int)
    requires
        is_project_slot(ps, t, k),
    ensures
        project_slot(ps, t) == k,
{
    let c = project_slot(ps, t);
    assert(is_project_slot(ps, t, c));
    if c < k {
        assert(ps[c].updated_at > t);
    } else if k < c {
        assert(ps[k].updated_at > t);
    }
}

proof fn lemma_project_insert_keeps_order(ps: Seq<ProjectView>, k: int, p: ProjectView)
    requires
        newest_first(ps),
        is_project_slot(ps, p.updated_at, k),
    ensures
        newest_first(ps.insert(k, p)),
{
    let qs = ps.insert(k, p);
    assert forall|i: int, j: int| 0 <= i < j < qs.len() implies qs[i].updated_at >= qs[j].updated_at by {
        if j < k {
        } else if j == k {
        } else if i < k {
        } else if i == k {
            assert(qs[j] == ps[j - 1]);
        } else {
            assert(qs[i] == ps[i - 1] && qs[j] == ps[j - 1]);
        }
    }
}

// ------------------------------------------------- rows kept in time order

/// Ordered by `time`, earliest first.
pub open spec fn earliest_first<A>(s: Seq<A>, time: spec_fn(A) -> Timestamp) -> bool {
    forall|i: int, j: int| 0 <= i < j < s.len() ==> time(s[i]) <= time(s[j])
}

pub open spec fn is_slot_after<A>(s: Seq<A>, time: spec_fn(A) -> Timestamp, t: Timestamp, k: int) -> bool {
    &&& 0 <= k <= s.len()
    &&& forall|i: int| 0 <= i < k ==> time(s[i]) <= t
    &&& forall|i: int| k <= i < s.len() ==> time(s[i]) > t
}

/// Where a row timed `t` goes: after every row timed no later, so that
/// equal times keep their insertion order.
pub open spec fn slot_after<A>(s: Seq<A>, time: spec_fn(A) -> Timestamp, t: Timestamp) -> int {
    choose|k: int| is_slot_after(s, time, t, k)
}

pub proof fn lemma_slot_after<A>(s: Seq<A>, time: spec_fn(A) -> Timestamp, t: Timestamp, k: int)
    requires
        is_slot_after(s, time, t, k),
    ensures
        slot_after(s, time, t) == k,
{
    let c = slot_after(s, time, t);
    assert(is_slot_after(s, time, t, c));
    if c < k {
        assert(time(s[c]) > t);
    } else if k < c {
        assert(time(s[k]) > t);
    }
}

pub proof fn lemma_slot_after_exists<A>(s: Seq<A>, time: spec_fn(A) -> Timestamp, t: Timestamp)
    requires
        earliest_first(s, time),
    ensures
        is_slot_after(s, time, t, slot_after(s, time, t)),
    decreases s.len(),
{
    if s.len() == 0 {
        lemma_slot_after(s, time, t, 0);
    } else {
        let rest = s.drop_last();
        lemma_slot_after_exists(rest, time, t);
        let k = slot_after(rest, time, t);
        if time(s.last()) <= t {
            assert forall|i: int| 0 <= i < s.len() implies time(s[i]) <= t by {
                if i < s.len() - 1 {
                    assert(time(s[i]) <= time(s[s.len() - 1]));
                }
            }
            lemma_slot_after(s, time, t, s.len() as int);
        } else {
            assert forall|i: int| 0 <= i < s.len() - 1 implies s[i] == rest[i] by {}
            assert(is_slot_after(s, time, t, k));
            lemma_slot_after(s, time, t, k);
        }
    }
}

proof fn lemma_insert_keeps_earliest_first<A>(s: Seq<A>, time: spec_fn(A) -> Timestamp, k: int, x: A)
    requires
        earliest_first(s, time),
        is_slot_after(s, time, time(x), k),
    ensures
        earliest_first(s.insert(k, x), time),
{
    let qs = s.insert(k, x);
    assert forall|i: int, j: int| 0 <= i < j < qs.len() implies time(qs[i]) <= time(qs[j]) by {
        if j < k {
        } else if j == k {
        } else if i < k {
        } else if i == k {
            assert(qs[j] == s[j - 1]);
        } else {
            assert(qs[i] == s[i - 1] && qs[j] == s[j - 1]);
        }
    }
}

pub proof fn lemma_filter_keeps_earliest_first<A>(s: Seq<A>, time: spec_fn(A) -> Timestamp, pred: spec_fn(A) -> bool)
    requires
        earliest_first(s, time),
    ensures
        earliest_first(s.filter(pred), time),
    decreases s.len(),
{
    reveal(Seq::filter);
    if s.len() > 0 {
        let rest = s.drop_last();
        lemma_filter_keeps_earliest_first(rest, time, pred);
        let fr = rest.filter(pred);
        if pred(s.last()) {
            let fs = fr.push(s.last());
            assert forall|i: int, j: int| 0 <= i < j < fs.len() implies time(fs[i]) <= time(fs[j]) by {
                if j == fs.len() - 1 {
                    assert(fr.contains(fs[i]));
                    rest.lemma_filter_contains_rev(pred, fs[i]);
                    let c = choose|c: int| 0 <= c < rest.len() && rest[c] == fs[i];
                    assert(s[c] == rest[c]);
                }
            }
        }
    }
}

// ------------------------------------------------------------ translations

pub open spec fn translation_ids_unique(ts: Seq<TranslationView>) -> bool {
    forall|i: int, j: int|
        0 <= i < ts.len() && 0 <= j < ts.len() && i != j ==> ts[i].id != ts[j].id
}

pub open spec fn translation_time() -> spec_fn(TranslationView) -> Timestamp {
    |t: TranslationView| t.created_at
}

/// Chronological authoring order.
pub open spec fn translations_oldest_first(ts: Seq<TranslationView>) -> bool {
    earliest_first(ts, translation_time())
}

pub open spec fn has_translation(ts: Seq<TranslationView>, id: Seq<char>) -> bool {
    exists|i: int| 0 <= i < ts.len() && ts[i].id == id
}

pub open spec fn translation_in(project_id: Seq<char>) -> spec_fn(TranslationView) -> bool {
    |t: TranslationView| t.project_id == project_id
}

pub open spec fn translation_outside(project_id: Seq<char>) -> spec_fn(TranslationView) -> bool {
    |t: TranslationView| t.project_id != project_id
}

pub open spec fn is_translation_slot(ts: Seq<TranslationView>, t: Timestamp, k: int) -> bool {
    is_slot_after(ts, translation_time(), t, k)
}

/// Where a translation created at `t` goes: after every one created no later,
/// so that equal timestamps keep their insertion order.
pub open spec fn translation_slot(ts: Seq<TranslationView>, t: Timestamp) -> int {
    slot_after(ts, translation_time(), t)
}

pub open spec fn translations_view_of(v: Seq<Translation>) -> Seq<TranslationView> {
    v.map_values(|t: Translation| t@)
}

/// A translation after an edit: each supplied field replaces the stored one,
/// and any supplied field stamps `updated_at` with `now`.
pub open spec fn edited_translation(
    t: TranslationView,
    target_text: Option<Seq<char>>,
    notes: Option<Seq<char>>,
    status: Option<TranslationStatus>,
    now: Timestamp,
) -> TranslationView {
    TranslationView {
        target_text: if target_text is Some { target_text } else { t.target_text },
        notes: if notes is Some { notes } else { t.notes },
        status: match status {
            Some(s) => s,
            None => t.status,
        },
        updated_at: if target_text is Some || notes is Some || status is Some {
            now
        } else {
            t.updated_at
        },
        ..t
    }
}

/// The translation table after editing the row stored under `id`.
pub open spec fn edited_translations(
    ts: Seq<TranslationView>,
    id: Seq<char>,
    target_text: Option<Seq<char>>,
    notes: Option<Seq<char>>,
    status: Option<TranslationStatus>,
    now: Timestamp,
) -> Seq<TranslationView> {
    ts.map_values(
        |t: TranslationView|
            if t.id == id {
                edited_translation(t, target_text, notes, status, now)
            } else {
                t
            },
    )
}

// ----------------------------------------------------------- chat messages

pub open spec fn message_ids_unique(ms: Seq<ChatMessageView>) -> bool {
    forall|i: int, j: int|
        0 <= i < ms.len() && 0 <= j < ms.len() && i != j ==> ms[i].id != ms[j].id
}

pub open spec fn message_time() -> spec_fn(ChatMessageView) -> Timestamp {
    |m: ChatMessageView| m.created_at
}

/// Conversation order.
pub open spec fn messages_oldest_first(ms: Seq<ChatMessageView>) -> bool {
    earliest_first(ms, message_time())
}

pub open spec fn has_message(ms: Seq<ChatMessageView>, id: Seq<char>) -> bool {
    exists|i: int| 0 <= i < ms.len() && ms[i].id == id
}

pub open spec fn message_in(project_id: Seq<char>) -> spec_fn(ChatMessageView) -> bool {
    |m: ChatMessageView| m.project_id == project_id
}

pub open spec fn message_outside(project_id: Seq<char>) -> spec_fn(ChatMessageView) -> bool {
    |m: ChatMessageView| m.project_id != project_id
}

pub open spec fn is_message_slot(ms: Seq<ChatMessageView>, t: Timestamp, k: int) -> bool {
    is_slot_after(ms, message_time(), t, k)
}

/// Where a message created at `t` goes: after every one created no later.
pub open spec fn message_slot(ms: Seq<ChatMessageView>, t: Timestamp) -> int {
    slot_after(ms, message_time(), t)
}

pub open spec fn messages_view_of(v: Seq<ChatMessage>) -> Seq<ChatMessageView> {
    v.map_values(|m: ChatMessage| m@)
}

// ------------------------------------------------------------- removal

pub open spec fn project_outside(id: Seq<char>) -> spec_fn(ProjectView) -> bool {
    |p: ProjectView| p.id != id
}

pub open spec fn keys_unique<A>(s: Seq<A>, key: spec_fn(A) -> Seq<char>) -> bool {
    forall|i: int, j: int| 0 <= i < s.len() && 0 <= j < s.len() && i != j ==> key(s[i]) != key(s[j])
}

proof fn lemma_filter_keeps_keys_unique<A>(s: Seq<A>, pred: spec_fn(A) -> bool, key: spec_fn(A) -> Seq<char>)
    requires
        keys_unique(s, key),
    ensures
        keys_unique(s.filter(pred), key),
    decreases s.len(),
{
    reveal(Seq::filter);
    if s.len() > 0 {
        let rest = s.drop_last();
        assert(keys_unique(rest, key)) by {
            assert forall|i: int, j: int| 0 <= i < rest.len() && 0 <= j < rest.len() && i != j implies key(rest[i]) != key(rest[j]) by {
                assert(rest[i] == s[i] && rest[j] == s[j]);
            }
        }
        lemma_filter_keeps_keys_unique(rest, pred, key);
        let fr = rest.filter(pred);
        if pred(s.last()) {
            let fs = fr.push(s.last());
            assert forall|i: int, j: int| 0 <= i < fs.len() && 0 <= j < fs.len() && i != j implies key(fs[i]) != key(fs[j]) by {
                if i == fs.len() - 1 || j == fs.len() - 1 {
                    let o = if i == fs.len() - 1 { j } else { i };
                    assert(fr.contains(fs[o]));
                    rest.lemma_filter_contains_rev(pred, fs[o]);
                    let c = choose|c: int| 0 <= c < rest.len() && rest[c] == fs[o];
                    assert(s[c] == rest[c]);
                    assert(key(s[c]) != key(s[s.len() - 1]));
                }
            }
        }
    }
}

proof fn lemma_project_filter_keeps_order(ps: Seq<ProjectView>, pred: spec_fn(ProjectView) -> bool)
    requires
        newest_first(ps),
    ensures
        newest_first(ps.filter(pred)),
    decreases ps.len(),
{
    reveal(Seq::filter);
    if ps.len() > 0 {
        let rest = ps.drop_last();
        lemma_project_filter_keeps_order(rest, pred);
        let fr = rest.filter(pred);
        if pred(ps.last()) {
            let fs = fr.push(ps.last());
            assert forall|i: int, j: int| 0 <= i < j < fs.len() implies fs[i].updated_at >= fs[j].updated_at by {
                if j == fs.len() - 1 {
                    assert(fr.contains(fs[i]));
                    rest.lemma_filter_contains_rev(pred, fs[i]);
                    let c = choose|c: int| 0 <= c < rest.len() && rest[c] == fs[i];
                    assert(ps[c] == rest[c]);
                }
            }
        }
    }
}

/// The in-memory store of projects, translations and chat messages.
pub struct Database {
    projects: Vec<Project>,
    translations: Vec<Translation>,
    chat_messages: Vec<ChatMessage>,
}

impl Database {
    pub closed spec fn projects_view(&self) -> Seq<ProjectView> {
        projects_view_of(self.projects@)
    }

    pub closed spec fn translations_view(&self) -> Seq<TranslationView> {
        translations_view_of(self.translations@)
    }

    pub closed spec fn messages_view(&self) -> Seq<ChatMessageView> {
        messages_view_of(self.chat_messages@)
    }

    /// The store's invariant.
    pub closed spec fn wf(&self) -> bool {
        let ps = self.projects_view();
        &&& project_ids_unique(ps)
        &&& newest_first(ps)
        &&& forall|i: int| 0 <= i < ps.len() ==> ps[i].created_at <= ps[i].updated_at
        &&& Self::children_wf(ps, self.translations_view(), self.messages_view())
    }

    /// Keys unique, rows in creation order, each owned by a stored project.
    pub open spec fn children_wf(ps: Seq<ProjectView>, ts: Seq<TranslationView>, ms: Seq<ChatMessageView>) -> bool {
        &&& translation_ids_unique(ts)
        &&& translations_oldest_first(ts)
        &&& forall|i: int| 0 <= i < ts.len() ==> has_project(ps, #[trigger] ts[i].project_id)
        &&& message_ids_unique(ms)
        &&& messages_oldest_first(ms)
        &&& forall|i: int| 0 <= i < ms.len() ==> has_project(ps, #[trigger] ms[i].project_id)
    }

    /// What the invariant gives a caller.
    pub proof fn lemma_wf_parts(&self)
        requires
            self.wf(),
        ensures
            project_ids_unique(self.projects_view()),
            newest_first(self.projects_view()),
            Self::children_wf(self.projects_view(), self.translations_view(), self.messages_view()),
    {
    }

    /// An empty store.
    pub fn new() -> (r: Database)
        ensures
            r.wf(),
            r.projects_view() == Seq::<ProjectView>::empty(),
            r.translations_view() == Seq::<TranslationView>::empty(),
            r.messages_view() == Seq::<ChatMessageView>::empty(),
    {
        let r = Database { projects: Vec::new(), translations: Vec::new(), chat_messages: Vec::new() };
        assert(r.projects_view() =~= Seq::<ProjectView>::empty());
        assert(r.translations_view() =~= Seq::<TranslationView>::empty());
        assert(r.messages_view() =~= Seq::<ChatMessageView>::empty());
        r
    }

    fn find_project(&self, id: &str) -> (r: Option<usize>)
        ensures
            match r {
                Some(k) => k < self.projects_view().len() && self.projects_view()[k as int].id == id@,
                None => !has_project(self.projects_view(), id@),
            },
    {
        let mut i: usize = 0;
        while i < self.projects.len()
            invariant
                i <= self.projects.len(),
                forall|j: int| 0 <= j < i ==> self.projects_view()[j].id != id@,
            decreases self.projects.len() - i,
        {
            if same_text(self.projects[i].id.as_str(), id) {
                return Some(i);
            }
            i += 1;
        }
        None
    }

    fn project_slot_index(&self, now: Timestamp) -> (k: usize)
        requires
            self.wf(),
        ensures
            k == project_slot(self.projects_view(), now),
            k <= self.projects@.len(),
            is_project_slot(self.projects_view(), now, k as int),
    {
        let mut k: usize = 0;
        while k < self.projects.len() && self.projects[k].updated_at > now
            invariant
                k <= self.projects.len(),
                forall|j: int| 0 <= j < k ==> self.projects_view()[j].updated_at > now,
            decreases self.projects.len() - k,
        {
            k += 1;
        }
        proof {
            let ps = self.projects_view();
            if k < ps.len() {
                assert forall|i: int| k <= i < ps.len() implies ps[i].updated_at <= now by {
                    assert(ps[k as int].updated_at >= ps[i].updated_at);
                }
            }
            lemma_project_slot(ps, now, k as int);
        }
        k
    }

    /// Stores a new project under the given id, stamped `now`.
    pub fn create_project_at(&mut self, id: String, name: String, description: Option<String>, now: Timestamp) -> (r: Result<Project, StorageError>)
        requires
            old(self).wf(),
        ensures
            final(self).wf(),
            match r {
                Ok(p) => {
                    &&& !has_project(old(self).projects_view(), id@)
                    &&& p@ == (ProjectView {
                        id: id@,
                        name: name@,
                        description: opt_text(description),
                        created_at: now,
                        updated_at: now,
                    })
                    &&& final(self).projects_view() == old(self).projects_view().insert(
                        project_slot(old(self).projects_view(), now),
                        p@,
                    )
                    &&& project_with_id(final(self).projects_view(), id@) == Some(p@)
                },
                Err(e) => {
                    &&& has_project(old(self).projects_view(), id@)
                    &&& e == StorageError::DuplicateId(id)
                    &&& final(self).projects_view() == old(self).projects_view()
                },
            },
            final(self).translations_view() == old(self).translations_view(),
            final(self).messages_view() == old(self).messages_view(),
    {
        if let Some(_) = self.find_project(id.as_str()) {
            return Err(StorageError::DuplicateId(id));
        }
        let k = self.project_slot_index(now);
        let p = Project { id, name, description, created_at: now, updated_at: now };
        let ghost old_ps = self.projects_view();
        self.projects.insert(k, p.duplicate());
        proof {
            let ps = self.projects_view();
            assert(ps =~= old_ps.insert(k as int, p@));
            assert forall|i: int, j: int| 0 <= i < ps.len() && 0 <= j < ps.len() && i != j implies ps[i].id != ps[j].id by {
                if i == k {
                    assert(ps[j].id != id@ || !has_project(old_ps, id@));
                    if j < k { assert(ps[j] == old_ps[j]); } else { assert(ps[j] == old_ps[j - 1]); }
                } else if j == k {
                    if i < k { assert(ps[i] == old_ps[i]); } else { assert(ps[i] == old_ps[i - 1]); }
                }
            }
            lemma_project_insert_keeps_order(old_ps, k as int, p@);
            assert(ps[k as int] == p@);
            assert(has_project(ps, id@));
            let c = choose|c: int| 0 <= c < ps.len() && ps[c].id == id@;
            assert(c == k);
            let ts = self.translations_view();
            let ms = self.messages_view();
            assert forall|id: Seq<char>| has_project(old_ps, id) implies has_project(ps, id) by {
                let j = choose|j: int| 0 <= j < old_ps.len() && old_ps[j].id == id;
                if j < k { assert(ps[j] == old_ps[j]); } else { assert(ps[j + 1] == old_ps[j]); }
            }
            assert(forall|i: int| 0 <= i < ts.len() ==> has_project(ps, #[trigger] ts[i].project_id));
            assert(forall|i: int| 0 <= i < ms.len() ==> has_project(ps, #[trigger] ms[i].project_id));
            assert forall|i: int| 0 <= i < ps.len() implies ps[i].created_at <= ps[i].updated_at by {
                if i < k { assert(ps[i] == old_ps[i]); } else if i > k { assert(ps[i] == old_ps[i - 1]); }
            }
        }
        Ok(p)
    }

    /// Stores a new project under a fresh id, stamped with the current time.
    pub fn create_project(&mut self, name: String, description: Option<String>) -> (r: Result<Project, StorageError>)
        requires
            old(self).wf(),
        ensures
            final(self).wf(),
            match r {
                Ok(p) => {
                    &&& p.name@ == name@
                    &&& opt_text(p.description) == opt_text(description)
                    &&& p.created_at == p.updated_at
                    &&& !has_project(old(self).projects_view(), p.id@)
                    &&& final(self).projects_view() == old(self).projects_view().insert(
                        project_slot(old(self).projects_view(), p.updated_at),
                        p@,
                    )
                    &&& project_with_id(final(self).projects_view(), p.id@) == Some(p@)
                },
                Err(e) => {
                    &&& final(self).projects_view() == old(self).projects_view()
                    &&& e is DuplicateId
                    &&& has_project(old(self).projects_view(), e->DuplicateId_0@)
                },
            },
            final(self).translations_view() == old(self).translations_view(),
            final(self).messages_view() == old(self).messages_view(),
    {
        let id = fresh_id();
        let now = now_millis();
        self.create_project_at(id, name, description, now)
    }

    /// All projects, most recently touched first.
    pub fn get_projects(&self) -> (r: Vec<Project>)
        requires
            self.wf(),
        ensures
            projects_view_of(r@) == self.projects_view(),
            newest_first(projects_view_of(r@)),
    {
        let mut r: Vec<Project> = Vec::new();
        let mut i: usize = 0;
        while i < self.projects.len()
            invariant
                i <= self.projects.len(),
                projects_view_of(r@) == self.projects_view().take(i as int),
            decreases self.projects.len() - i,
        {
            let p = self.projects[i].duplicate();
            let ghost before = r@;
            r.push(p);
            proof {
                assert(projects_view_of(r@) =~= projects_view_of(before).push(p@));
                assert(self.projects_view().take(i + 1) =~= self.projects_view().take(i as int).push(p@));
            }
            i += 1;
        }
        assert(self.projects_view().take(i as int) =~= self.projects_view());
        r
    }

    fn find_translation(&self, id: &str) -> (r: Option<usize>)
        ensures
            match r {
                Some(k) => k < self.translations_view().len() && self.translations_view()[k as int].id == id@,
                None => !has_translation(self.translations_view(), id@),
            },
    {
        let mut i: usize = 0;
        while i < self.translations.len()
            invariant
                i <= self.translations.len(),
                forall|j: int| 0 <= j < i ==> self.translations_view()[j].id != id@,
            decreases self.translations.len() - i,
        {
            if same_text(self.translations[i].id.as_str(), id) {
                return Some(i);
            }
            i += 1;
        }
        None
    }

    fn translation_slot_index(&self, now: Timestamp) -> (k: usize)
        requires
            self.wf(),
        ensures
            k == translation_slot(self.translations_view(), now),
            k <= self.translations@.len(),
            is_translation_slot(self.translations_view(), now, k as int),
    {
        let mut k: usize = 0;
        while k < self.translations.len() && self.translations[k].created_at <= now
            invariant
                k <= self.translations.len(),
                forall|j: int| 0 <= j < k ==> self.translations_view()[j].created_at <= now,
            decreases self.translations.len() - k,
        {
            k += 1;
        }
        proof {
            let ts = self.translations_view();
            if k < ts.len() {
                assert forall|i: int| k <= i < ts.len() implies ts[i].created_at > now by {
                    assert(ts[k as int].created_at <= ts[i].created_at);
                }
            }
            lemma_slot_after(ts, translation_time(), now, k as int);
        }
        k
    }

    /// Stores a new draft translation under the given id, stamped `now`.
    pub fn create_translation_at(&mut self, id: String, project_id: String, source_text: String, now: Timestamp) -> (r: Result<Translation, StorageError>)
        requires
            old(self).wf(),
        ensures
            final(self).wf(),
            final(self).projects_view() == old(self).projects_view(),
            final(self).messages_view() == old(self).messages_view(),
            match r {
                Ok(t) => {
                    &&& !has_translation(old(self).translations_view(), id@)
                    &&& has_project(old(self).projects_view(), project_id@)
                    &&& t@ == (TranslationView {
                        id: id@,
                        project_id: project_id@,
                        source_text: source_text@,
                        target_text: None,
                        notes: None,
                        status: TranslationStatus::Draft,
                        created_at: now,
                        updated_at: now,
                    })
                    &&& final(self).translations_view() == old(self).translations_view().insert(
                        translation_slot(old(self).translations_view(), now),
                        t@,
                    )
                },
                Err(e) => {
                    &&& final(self).translations_view() == old(self).translations_view()
                    &&& if has_translation(old(self).translations_view(), id@) {
                        e == StorageError::DuplicateId(id)
                    } else {
                        !has_project(old(self).projects_view(), project_id@)
                            && e == StorageError::UnknownProject(project_id)
                    }
                },
            },
    {
        if let Some(_) = self.find_translation(id.as_str()) {
            return Err(StorageError::DuplicateId(id));
        }
        if self.find_project(project_id.as_str()).is_none() {
            return Err(StorageError::UnknownProject(project_id));
        }
        let k = self.translation_slot_index(now);
        let t = Translation {
            id,
            project_id,
            source_text,
            target_text: None,
            notes: None,
            status: TranslationStatus::Draft,
            created_at: now,
            updated_at: now,
        };
        let ghost old_ts = self.translations_view();
        self.translations.insert(k, t.duplicate());
        proof {
            let ts = self.translations_view();
            let ps = self.projects_view();
            assert(ts =~= old_ts.insert(k as int, t@));
            assert forall|i: int, j: int| 0 <= i < ts.len() && 0 <= j < ts.len() && i != j implies ts[i].id != ts[j].id by {
                if i == k {
                    if j < k { assert(ts[j] == old_ts[j]); } else { assert(ts[j] == old_ts[j - 1]); }
                } else if j == k {
                    if i < k { assert(ts[i] == old_ts[i]); } else { assert(ts[i] == old_ts[i - 1]); }
                } else {
                    let a = if i < k { i } else { i - 1 };
                    let b = if j < k { j } else { j - 1 };
                    assert(ts[i] == old_ts[a] && ts[j] == old_ts[b]);
                }
            }
            lemma_insert_keeps_earliest_first(old_ts, translation_time(), k as int, t@);
            assert forall|i: int| 0 <= i < ts.len() implies has_project(ps, #[trigger] ts[i].project_id) by {
                if i < k { assert(ts[i] == old_ts[i]); } else if i > k { assert(ts[i] == old_ts[i - 1]); }
            }
        }
        Ok(t)
    }

    /// Stores a new draft translation under a fresh id, stamped with the current time.
    pub fn create_translation(&mut self, project_id: String, source_text: String) -> (r: Result<Translation, StorageError>)
        requires
            old(self).wf(),
        ensures
            final(self).wf(),
            final(self).projects_view() == old(self).projects_view(),
            final(self).messages_view() == old(self).messages_view(),
            match r {
                Ok(t) => {
                    &&& has_project(old(self).projects_view(), project_id@)
                    &&& t.project_id@ == project_id@
                    &&& t.source_text@ == source_text@
                    &&& t.target_text is None
                    &&& t.notes is None
                    &&& t.status == TranslationStatus::Draft
                    &&& t.created_at == t.updated_at
                    &&& final(self).translations_view() == old(self).translations_view().insert(
                        translation_slot(old(self).translations_view(), t.created_at),
                        t@,
                    )
                },
                Err(e) => {
                    &&& final(self).translations_view() == old(self).translations_view()
                    &&& match e {
                        StorageError::DuplicateId(d) => has_translation(old(self).translations_view(), d@),
                        StorageError::UnknownProject(p) => {
                            &&& p@ == project_id@
                            &&& !has_project(old(self).projects_view(), project_id@)
                        },
                    }
                },
            },
    {
        let id = fresh_id();
        let now = now_millis();
        self.create_translation_at(id, project_id, source_text, now)
    }

    /// The translations of a project, oldest first.
    pub fn get_translations(&self, project_id: &str) -> (r: Vec<Translation>)
        requires
            self.wf(),
        ensures
            translations_view_of(r@) == self.translations_view().filter(translation_in(project_id@)),
            translations_oldest_first(translations_view_of(r@)),
    {
        let ghost pred = translation_in(project_id@);
        let mut r: Vec<Translation> = Vec::new();
        let mut i: usize = 0;
        while i < self.translations.len()
            invariant
                i <= self.translations.len(),
                pred == translation_in(project_id@),
                translations_view_of(r@) == self.translations_view().take(i as int).filter(pred),
            decreases self.translations.len() - i,
        {
            let ghost ts = self.translations_view();
            let ghost before = r@;
            proof {
                reveal(Seq::filter);
                assert(ts.take(i + 1).drop_last() =~= ts.take(i as int));
                assert(ts.take(i + 1).last() == ts[i as int]);
            }
            if same_text(self.translations[i].project_id.as_str(), project_id) {
                let t = self.translations[i].duplicate();
                r.push(t);
                assert(translations_view_of(r@) =~= translations_view_of(before).push(t@));
            }
            i += 1;
        }
        assert(self.translations_view().take(i as int) =~= self.translations_view());
        proof { lemma_filter_keeps_earliest_first(self.translations_view(), translation_time(), pred); }
        r
    }

    /// Edits the translation stored under `id`: each supplied field replaces
    /// the stored one and stamps `updated_at` with `now`; an unknown id changes nothing.
    pub fn update_translation_at(
        &mut self,
        id: &str,
        target_text: Option<String>,
        notes: Option<String>,
        status: Option<TranslationStatus>,
        now: Timestamp,
    )
        requires
            old(self).wf(),
        ensures
            final(self).wf(),
            final(self).projects_view() == old(self).projects_view(),
            final(self).messages_view() == old(self).messages_view(),
            final(self).translations_view() == edited_translations(
                old(self).translations_view(),
                id@,
                opt_text(target_text),
                opt_text(notes),
                status,
                now,
            ),
    {
        let ghost old_ts = self.translations_view();
        let ghost edited = edited_translations(old_ts, id@, opt_text(target_text), opt_text(notes), status, now);
        match self.find_translation(id) {
            None => {
                assert(edited =~= old_ts);
            },
            Some(k) => {
                let old_t = self.translations.remove(k);
                let any = target_text.is_some() || notes.is_some() || status.is_some();
                let new_t = Translation {
                    id: old_t.id,
                    project_id: old_t.project_id,
                    source_text: old_t.source_text,
                    target_text: match target_text {
                        Some(x) => Some(x),
                        None => old_t.target_text,
                    },
                    notes: match notes {
                        Some(x) => Some(x),
                        None => old_t.notes,
                    },
                    status: match status {
                        Some(x) => x,
                        None => old_t.status,
                    },
                    created_at: old_t.created_at,
                    updated_at: if any { now } else { old_t.updated_at },
                };
                self.translations.insert(k, new_t);
                proof {
                    let ts = self.translations_view();
                    assert(ts =~= old_ts.update(k as int, new_t@));
                    assert(edited =~= ts);
                }
            },
        }
    }

    /// Edits the translation stored under `id`, stamping with the current time.
    pub fn update_translation(
        &mut self,
        id: &str,
        target_text: Option<String>,
        notes: Option<String>,
        status: Option<TranslationStatus>,
    ) -> (r: Timestamp)
        requires
            old(self).wf(),
        ensures
            final(self).wf(),
            final(self).projects_view() == old(self).projects_view(),
            final(self).messages_view() == old(self).messages_view(),
            final(self).translations_view() == edited_translations(
                old(self).translations_view(),
                id@,
                opt_text(target_text),
                opt_text(notes),
                status,
                r,
            ),
    {
        let now = now_millis();
        self.update_translation_at(id, target_text, notes, status, now);
        now
    }

    fn find_message(&self, id: &str) -> (r: Option<usize>)
        ensures
            match r {
                Some(k) => k < self.messages_view().len() && self.messages_view()[k as int].id == id@,
                None => !has_message(self.messages_view(), id@),
            },
    {
        let mut i: usize = 0;
        while i < self.chat_messages.len()
            invariant
                i <= self.chat_messages.len(),
                forall|j: int| 0 <= j < i ==> self.messages_view()[j].id != id@,
            decreases self.chat_messages.len() - i,
        {
            if same_text(self.chat_messages[i].id.as_str(), id) {
                return Some(i);
            }
            i += 1;
        }
        None
    }

    fn message_slot_index(&self, now: Timestamp) -> (k: usize)
        requires
            self.wf(),
        ensures
            k == message_slot(self.messages_view(), now),
            k <= self.chat_messages@.len(),
            is_message_slot(self.messages_view(), now, k as int),
    {
        let mut k: usize = 0;
        while k < self.chat_messages.len() && self.chat_messages[k].created_at <= now
            invariant
                k <= self.chat_messages.len(),
                forall|j: int| 0 <= j < k ==> self.messages_view()[j].created_at <= now,
            decreases self.chat_messages.len() - k,
        {
            k += 1;
        }
        proof {
            let ms = self.messages_view();
            if k < ms.len() {
                assert forall|i: int| k <= i < ms.len() implies ms[i].created_at > now by {
                    assert(ms[k as int].created_at <= ms[i].created_at);
                }
            }
            lemma_slot_after(ms, message_time(), now, k as int);
        }
        k
    }

    /// Stores a new chat message under the given id, stamped `now`.
    pub fn add_chat_message_at(&mut self, id: String, project_id: String, role: ChatRole, content: String, now: Timestamp) -> (r: Result<ChatMessage, StorageError>)
        requires
            old(self).wf(),
        ensures
            final(self).wf(),
            final(self).projects_view() == old(self).projects_view(),
            final(self).translations_view() == old(self).translations_view(),
            match r {
                Ok(m) => {
                    &&& !has_message(old(self).messages_view(), id@)
                    &&& has_project(old(self).projects_view(), project_id@)
                    &&& m@ == (ChatMessageView {
                        id: id@,
                        project_id: project_id@,
                        role: role,
                        content: content@,
                        created_at: now,
                    })
                    &&& final(self).messages_view() == old(self).messages_view().insert(
                        message_slot(old(self).messages_view(), now),
                        m@,
                    )
                },
                Err(e) => {
                    &&& final(self).messages_view() == old(self).messages_view()
                    &&& if has_message(old(self).messages_view(), id@) {
                        e == StorageError::DuplicateId(id)
                    } else {
                        !has_project(old(self).projects_view(), project_id@)
                            && e == StorageError::UnknownProject(project_id)
                    }
                },
            },
    {
        if let Some(_) = self.find_message(id.as_str()) {
            return Err(StorageError::DuplicateId(id));
        }
        if self.find_project(project_id.as_str()).is_none() {
            return Err(StorageError::UnknownProject(project_id));
        }
        let k = self.message_slot_index(now);
        let m = ChatMessage { id, project_id, role, content, created_at: now };
        let ghost old_ms = self.messages_view();
        self.chat_messages.insert(k, m.duplicate());
        proof {
            let ms = self.messages_view();
            let ps = self.projects_view();
            assert(ms =~= old_ms.insert(k as int, m@));
            assert forall|i: int, j: int| 0 <= i < ms.len() && 0 <= j < ms.len() && i != j implies ms[i].id != ms[j].id by {
                if i == k {
                    if j < k { assert(ms[j] == old_ms[j]); } else { assert(ms[j] == old_ms[j - 1]); }
                } else if j == k {
                    if i < k { assert(ms[i] == old_ms[i]); } else { assert(ms[i] == old_ms[i - 1]); }
                } else {
                    let a = if i < k { i } else { i - 1 };
                    let b = if j < k { j } else { j - 1 };
                    assert(ms[i] == old_ms[a] && ms[j] == old_ms[b]);
                }
            }
            lemma_insert_keeps_earliest_first(old_ms, message_time(), k as int, m@);
            assert forall|i: int| 0 <= i < ms.len() implies has_project(ps, #[trigger] ms[i].project_id) by {
                if i < k { assert(ms[i] == old_ms[i]); } else if i > k { assert(ms[i] == old_ms[i - 1]); }
            }
        }
        Ok(m)
    }

    /// Stores a new chat message under a fresh id, stamped with the current time.
    pub fn add_chat_message(&mut self, project_id: String, role: ChatRole, content: String) -> (r: Result<ChatMessage, StorageError>)
        requires
            old(self).wf(),
        ensures
            final(self).wf(),
            final(self).projects_view() == old(self).projects_view(),
            final(self).translations_view() == old(self).translations_view(),
            match r {
                Ok(m) => {
                    &&& has_project(old(self).projects_view(), project_id@)
                    &&& m.project_id@ == project_id@
                    &&& m.role == role
                    &&& m.content@ == content@
                    &&& final(self).messages_view() == old(self).messages_view().insert(
                        message_slot(old(self).messages_view(), m.created_at),
                        m@,
                    )
                },
                Err(e) => {
                    &&& final(self).messages_view() == old(self).messages_view()
                    &&& match e {
                        StorageError::DuplicateId(d) => has_message(old(self).messages_view(), d@),
                        StorageError::UnknownProject(p) => {
                            &&& p@ == project_id@
                            &&& !has_project(old(self).projects_view(), project_id@)
                        },
                    }
                },
            },
    {
        let id = fresh_id();
        let now = now_millis();
        self.add_chat_message_at(id, project_id, role, content, now)
    }

    /// The chat history of a project, oldest first.
    pub fn get_chat_messages(&self, project_id: &str) -> (r: Vec<ChatMessage>)
        requires
            self.wf(),
        ensures
            messages_view_of(r@) == self.messages_view().filter(message_in(project_id@)),
            messages_oldest_first(messages_view_of(r@)),
    {
        let ghost pred = message_in(project_id@);
        let mut r: Vec<ChatMessage> = Vec::new();
        let mut i: usize = 0;
        while i < self.chat_messages.len()
            invariant
                i <= self.chat_messages.len(),
                pred == message_in(project_id@),
                messages_view_of(r@) == self.messages_view().take(i as int).filter(pred),
            decreases self.chat_messages.len() - i,
        {
            let ghost ms = self.messages_view();
            let ghost before = r@;
            proof {
                reveal(Seq::filter);
                assert(ms.take(i + 1).drop_last() =~= ms.take(i as int));
                assert(ms.take(i + 1).last() == ms[i as int]);
            }
            if same_text(self.chat_messages[i].project_id.as_str(), project_id) {
                let m = self.chat_messages[i].duplicate();
                r.push(m);
                assert(messages_view_of(r@) =~= messages_view_of(before).push(m@));
            }
            i += 1;
        }
        assert(self.messages_view().take(i as int) =~= self.messages_view());
        proof { lemma_filter_keeps_earliest_first(self.messages_view(), message_time(), pred); }
        r
    }

    /// Removes the project stored under `id` together with its translations
    /// and chat messages; tells whether there was one.
    pub fn delete_project(&mut self, id: &str) -> (r: bool)
        requires
            old(self).wf(),
        ensures
            final(self).wf(),
            r == has_project(old(self).projects_view(), id@),
            final(self).projects_view() == old(self).projects_view().filter(project_outside(id@)),
            final(self).translations_view() == old(self).translations_view().filter(translation_outside(id@)),
            final(self).messages_view() == old(self).messages_view().filter(message_outside(id@)),
    {
        let ghost old_ps = self.projects_view();
        let ghost old_ts = self.translations_view();
        let ghost old_ms = self.messages_view();
        let found = self.find_project(id).is_some();

        let ghost pp = project_outside(id@);
        let mut ps: Vec<Project> = Vec::new();
        let mut i: usize = 0;
        while i < self.projects.len()
            invariant
                i <= self.projects.len(),
                pp == project_outside(id@),
                projects_view_of(ps@) == self.projects_view().take(i as int).filter(pp),
            decreases self.projects.len() - i,
        {
            let ghost vs = self.projects_view();
            let ghost before = ps@;
            proof {
                reveal(Seq::filter);
                assert(vs.take(i + 1).drop_last() =~= vs.take(i as int));
                assert(vs.take(i + 1).last() == vs[i as int]);
            }
            if !same_text(self.projects[i].id.as_str(), id) {
                let x = self.projects[i].duplicate();
                ps.push(x);
                assert(projects_view_of(ps@) =~= projects_view_of(before).push(x@));
            }
            i += 1;
        }
        assert(self.projects_view().take(i as int) =~= self.projects_view());

        let ghost tp = translation_outside(id@);
        let mut ts: Vec<Translation> = Vec::new();
        let mut i: usize = 0;
        while i < self.translations.len()
            invariant
                i <= self.translations.len(),
                tp == translation_outside(id@),
                translations_view_of(ts@) == self.translations_view().take(i as int).filter(tp),
            decreases self.translations.len() - i,
        {
            let ghost vs = self.translations_view();
            let ghost before = ts@;
            proof {
                reveal(Seq::filter);
                assert(vs.take(i + 1).drop_last() =~= vs.take(i as int));
                assert(vs.take(i + 1).last() == vs[i as int]);
            }
            if !same_text(self.translations[i].project_id.as_str(), id) {
                let x = self.translations[i].duplicate();
                ts.push(x);
                assert(translations_view_of(ts@) =~= translations_view_of(before).push(x@));
            }
            i += 1;
        }
        assert(self.translations_view().take(i as int) =~= self.translations_view());

        let ghost mp = message_outside(id@);
        let mut ms: Vec<ChatMessage> = Vec::new();
        let mut i: usize = 0;
        while i < self.chat_messages.len()
            invariant
                i <= self.chat_messages.len(),
                mp == message_outside(id@),
                messages_view_of(ms@) == self.messages_view().take(i as int).filter(mp),
            decreases self.chat_messages.len() - i,
        {
            let ghost vs = self.messages_view();
            let ghost before = ms@;
            proof {
                reveal(Seq::filter);
                assert(vs.take(i + 1).drop_last() =~= vs.take(i as int));
                assert(vs.take(i + 1).last() == vs[i as int]);
            }
            if !same_text(self.chat_messages[i].project_id.as_str(), id) {
                let x = self.chat_messages[i].duplicate();
                ms.push(x);
                assert(messages_view_of(ms@) =~= messages_view_of(before).push(x@));
            }
            i += 1;
        }
        assert(self.messages_view().take(i as int) =~= self.messages_view());

        self.projects = ps;
        self.translations = ts;
        self.chat_messages = ms;
        proof {
            let nps = self.projects_view();
            let nts = self.translations_view();
            let nms = self.messages_view();
            let pkey = |p: ProjectView| p.id;
            let tkey = |t: TranslationView| t.id;
            let mkey = |m: ChatMessageView| m.id;
            assert(keys_unique(old_ps, pkey));
            lemma_filter_keeps_keys_unique(old_ps, pp, pkey);
            assert(keys_unique(old_ts, tkey));
            lemma_filter_keeps_keys_unique(old_ts, tp, tkey);
            assert(keys_unique(old_ms, mkey));
            lemma_filter_keeps_keys_unique(old_ms, mp, mkey);
            lemma_project_filter_keeps_order(old_ps, pp);
            lemma_filter_keeps_earliest_first(old_ts, translation_time(), tp);
            lemma_filter_keeps_earliest_first(old_ms, message_time(), mp);
            assert forall|k: int| 0 <= k < nps.len() implies nps[k].created_at <= nps[k].updated_at by {
                old_ps.lemma_filter_contains_rev(pp, nps[k]);
            }
            assert forall|pid: Seq<char>| pid != id@ && has_project(old_ps, pid) implies has_project(nps, pid) by {
                let c = choose|c: int| 0 <= c < old_ps.len() && old_ps[c].id == pid;
                old_ps.lemma_filter_contains(pp, c);
            }
            assert forall|k: int| 0 <= k < nts.len() implies has_project(nps, #[trigger] nts[k].project_id) by {
                old_ts.lemma_filter_contains_rev(tp, nts[k]);
                old_ts.lemma_filter_pred(tp, k);
            }
            assert forall|k: int| 0 <= k < nms.len() implies has_project(nps, #[trigger] nms[k].project_id) by {
                old_ms.lemma_filter_contains_rev(mp, nms[k]);
                old_ms.lemma_filter_pred(mp, k);
            }
        }
        found
    }

    /// The project stored under `id`, or `None` when there is none.
    pub fn get_project(&self, id: &str) -> (r: Option<Project>)
        requires
            self.wf(),
        ensures
            opt_project_view(r) == project_with_id(self.projects_view(), id@),
    {
        match self.find_project(id) {
            Some(k) => {
                let p = self.projects[k].duplicate();
                proof {
                    let ps = self.projects_view();
                    let c = choose|i: int| 0 <= i < ps.len() && ps[i].id == id@;
                    assert(has_project(ps, id@));
                    assert(c == k);
                }
                Some(p)
            },
            None => None,
        }
    }
}

} // verus!
