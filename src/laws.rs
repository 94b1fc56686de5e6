use vstd::prelude::*;
use crate::database::{
    edited_translations, has_project, is_project_slot,
    is_translation_slot, lemma_project_slot, lemma_slot_after, lemma_slot_after_exists,
    message_in, message_outside, message_slot, messages_oldest_first, newest_first,
    project_ids_unique, project_slot, project_with_id, translation_in, translation_outside,
    message_time, translation_slot, translation_time, translations_oldest_first, Database,
};
use crate::model::{ChatMessageView, ProjectView, Timestamp, TranslationView};

verus! {

proof fn lemma_project_slot_exists(ps: Seq<ProjectView>, t: Timestamp)
    requires
        newest_first(ps),
    ensures
        is_project_slot(ps, t, project_slot(ps, t)),
    decreases ps.len(),
{
    if ps.len() == 0 {
        lemma_project_slot(ps, t, 0);
    } else {
        let rest = ps.drop_last();
        lemma_project_slot_exists(rest, t);
        let k = project_slot(rest, t);
        if ps.last().updated_at > t {
            assert forall|i: int| 0 <= i < ps.len() implies ps[i].updated_at > t by {
                if i < ps.len() - 1 {
                    assert(ps[i].updated_at >= ps[ps.len() - 1].updated_at);
                }
            }
            lemma_project_slot(ps, t, ps.len() as int);
        } else {
            assert forall|i: int| 0 <= i < ps.len() - 1 implies ps[i] == rest[i] by {}
            assert(is_project_slot(ps, t, k));
            lemma_project_slot(ps, t, k);
        }
    }
}

/// A project stored by `create_project` is found again by `get_project`
/// under its id, equal to what creation returned.
pub proof fn lemma_created_project_is_found(ps: Seq<ProjectView>, p: ProjectView)
    requires
        project_ids_unique(ps),
        newest_first(ps),
        !has_project(ps, p.id),
    ensures
        project_with_id(ps.insert(project_slot(ps, p.updated_at), p), p.id) == Some(p),
{
    lemma_project_slot_exists(ps, p.updated_at);
    let k = project_slot(ps, p.updated_at);
    let qs = ps.insert(k, p);
    assert(qs[k] == p);
    assert(has_project(qs, p.id));
    let c = choose|i: int| 0 <= i < qs.len() && qs[i].id == p.id;
    if c != k {
        let o = if c < k { c } else { c - 1 };
        assert(qs[c] == ps[o]);
    }
}

/// A project touched no earlier than every stored one goes to the front of
/// the newest-first listing, and the listing stays ordered.
pub proof fn lemma_newest_project_goes_first(ps: Seq<ProjectView>, p: ProjectView)
    requires
        newest_first(ps),
        forall|i: int| 0 <= i < ps.len() ==> ps[i].updated_at <= p.updated_at,
    ensures
        project_slot(ps, p.updated_at) == 0,
        ps.insert(project_slot(ps, p.updated_at), p)[0] == p,
        newest_first(ps.insert(project_slot(ps, p.updated_at), p)),
{
    lemma_project_slot(ps, p.updated_at, 0);
    let qs = ps.insert(0, p);
    assert forall|i: int, j: int| 0 <= i < j < qs.len() implies qs[i].updated_at >= qs[j].updated_at by {
        assert(qs[j] == ps[j - 1]);
        if i > 0 {
            assert(qs[i] == ps[i - 1]);
        }
    }
}

/// Setting only the target text of a translation changes its target text
/// and `updated_at`, and nothing else, in that row or any other.
pub proof fn lemma_target_edit_keeps_the_rest(ts: Seq<TranslationView>, id: Seq<char>, target: Seq<char>, now: Timestamp)
    ensures
        edited_translations(ts, id, Some(target), None, None, now).len() == ts.len(),
        forall|i: int|
            0 <= i < ts.len() && ts[i].id == id ==> #[trigger] edited_translations(ts, id, Some(target), None, None, now)[i]
                == (TranslationView { target_text: Some(target), updated_at: now, ..ts[i] }),
        forall|i: int|
            0 <= i < ts.len() && ts[i].id != id ==> #[trigger] edited_translations(ts, id, Some(target), None, None, now)[i]
                == ts[i],
{
}

/// Two translations of a project created at the same instant are stored,
/// and so listed, in the order in which they were created.
pub proof fn lemma_equal_times_keep_creation_order(ts: Seq<TranslationView>, a: TranslationView, b: TranslationView)
    requires
        translations_oldest_first(ts),
        a.created_at == b.created_at,
    ensures
        ({
            let k = translation_slot(ts, a.created_at);
            let once = ts.insert(k, a);
            let twice = once.insert(translation_slot(once, b.created_at), b);
            &&& translation_slot(once, b.created_at) == k + 1
            &&& twice[k] == a
            &&& twice[k + 1] == b
            &&& translations_oldest_first(twice)
        }),
{
    let t = a.created_at;
    lemma_slot_after_exists(ts, translation_time(), t);
    let k = translation_slot(ts, t);
    let once = ts.insert(k, a);
    assert(is_translation_slot(once, t, k + 1)) by {
        assert forall|i: int| 0 <= i < k + 1 implies once[i].created_at <= t by {
            if i < k {
                assert(once[i] == ts[i]);
            }
        }
        assert forall|i: int| k + 1 <= i < once.len() implies once[i].created_at > t by {
            assert(once[i] == ts[i - 1]);
        }
    }
    lemma_slot_after(once, translation_time(), t, k + 1);
    let twice = once.insert(k + 1, b);
    assert forall|i: int, j: int| 0 <= i < j < twice.len() implies twice[i].created_at <= twice[j].created_at by {
        if j <= k + 1 {
            if i < k {
                assert(twice[i] == ts[i]);
            }
            if j < k {
                assert(twice[j] == ts[j]);
            }
        } else {
            assert(twice[j] == ts[j - 2]);
            if i < k {
                assert(twice[i] == ts[i]);
            } else if i > k + 1 {
                assert(twice[i] == ts[i - 2]);
            }
        }
    }
}

proof fn lemma_filter_keeps_relative_order<A>(s: Seq<A>, pred: spec_fn(A) -> bool, i: int, j: int)
    requires
        0 <= i < j < s.len(),
        pred(s[i]),
        pred(s[j]),
    ensures
        exists|x: int, y: int|
            0 <= x < y < s.filter(pred).len() && s.filter(pred)[x] == s[i] && s.filter(pred)[y] == s[j],
    decreases s.len(),
{
    reveal(Seq::filter);
    let rest = s.drop_last();
    let fr = rest.filter(pred);
    if j == s.len() - 1 {
        assert(rest[i] == s[i]);
        rest.lemma_filter_contains(pred, i);
        let x = choose|x: int| 0 <= x < fr.len() && fr[x] == s[i];
        let f = fr.push(s[j]);
        assert(s.filter(pred) == f);
        assert(f[x] == s[i] && f[fr.len() as int] == s[j]);
        assert(0 <= x < fr.len() as int && fr.len() < s.filter(pred).len());
    } else {
        assert(rest[i] == s[i] && rest[j] == s[j]);
        lemma_filter_keeps_relative_order(rest, pred, i, j);
        let (x, y) = choose|x: int, y: int| 0 <= x < y < fr.len() && fr[x] == s[i] && fr[y] == s[j];
        if pred(s.last()) {
            let f = fr.push(s.last());
            assert(s.filter(pred) == f);
            assert(f[x] == s[i] && f[y] == s[j]);
        } else {
            assert(s.filter(pred) == fr);
        }
        assert(0 <= x < y < s.filter(pred).len() && s.filter(pred)[x] == s[i] && s.filter(pred)[y] == s[j]);
    }
}

/// Two translations of a project created at the same instant are listed by
/// `get_translations` in the order in which they were created.
pub proof fn lemma_equal_times_listed_in_creation_order(ts: Seq<TranslationView>, a: TranslationView, b: TranslationView)
    requires
        translations_oldest_first(ts),
        a.created_at == b.created_at,
        a.project_id == b.project_id,
    ensures
        ({
            let once = ts.insert(translation_slot(ts, a.created_at), a);
            let twice = once.insert(translation_slot(once, b.created_at), b);
            let listed = twice.filter(translation_in(a.project_id));
            exists|x: int, y: int| 0 <= x < y < listed.len() && listed[x] == a && listed[y] == b
        }),
{
    lemma_equal_times_keep_creation_order(ts, a, b);
    lemma_slot_after_exists(ts, translation_time(), a.created_at);
    let k = translation_slot(ts, a.created_at);
    let once = ts.insert(k, a);
    let twice = once.insert(translation_slot(once, b.created_at), b);
    lemma_filter_keeps_relative_order(twice, translation_in(a.project_id), k, k + 1);
}

/// After a project is removed, none of the remaining translations or chat
/// messages belongs to it.
pub proof fn lemma_removal_cascades(ts: Seq<TranslationView>, ms: Seq<ChatMessageView>, id: Seq<char>)
    ensures
        forall|i: int|
            0 <= i < ts.filter(translation_outside(id)).len() ==> #[trigger] ts.filter(translation_outside(id))[i].project_id != id,
        forall|i: int|
            0 <= i < ms.filter(message_outside(id)).len() ==> #[trigger] ms.filter(message_outside(id))[i].project_id != id,
        ts.filter(translation_outside(id)).filter(translation_in(id)).len() == 0,
        ms.filter(message_outside(id)).filter(message_in(id)).len() == 0,
{
    let ft = ts.filter(translation_outside(id));
    let fm = ms.filter(message_outside(id));
    assert forall|i: int| 0 <= i < ft.len() implies #[trigger] ft[i].project_id != id by {
        ts.lemma_filter_pred(translation_outside(id), i);
    }
    assert forall|i: int| 0 <= i < fm.len() implies #[trigger] fm[i].project_id != id by {
        ms.lemma_filter_pred(message_outside(id), i);
    }
    ft.lemma_all_neg_filter_empty(translation_in(id));
    fm.lemma_all_neg_filter_empty(message_in(id));
}

/// A stored chat message is read back in its project's history with the
/// same role and content.
pub proof fn lemma_message_round_trip(ms: Seq<ChatMessageView>, m: ChatMessageView)
    requires
        messages_oldest_first(ms),
    ensures
        ms.insert(message_slot(ms, m.created_at), m).filter(message_in(m.project_id)).contains(m),
{
    lemma_slot_after_exists(ms, message_time(), m.created_at);
    let k = message_slot(ms, m.created_at);
    let qs = ms.insert(k, m);
    assert(qs[k] == m);
    qs.lemma_filter_contains(message_in(m.project_id), k);
}

/// Listing the projects twice with no write in between gives the same sequence.
pub proof fn lemma_project_listing_is_repeatable(db: &Database, first: Seq<ProjectView>, second: Seq<ProjectView>)
    requires
        first == db.projects_view(),
        second == db.projects_view(),
    ensures
        first == second,
{
}

} // verus!
