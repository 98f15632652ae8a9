//! Revisioned note store: create, read, list, patch and delete notes while
//! keeping each note's revision number strictly increasing, with no gaps,
//! under partial (PATCH-style) updates.

use vstd::prelude::*;
use crate::errors::AppError;
use crate::frame::fresh_id;
use crate::models::{clone_bytes, clone_tags, Note, NoteView};

verus! {

/// Mathematical model of an [`UpdateNoteRequest`].
pub ghost struct PatchView {
    pub title: Option<Seq<u8>>,
    pub body: Option<Seq<u8>>,
    pub tags: Option<Seq<Seq<u8>>>,
}

/// A partial update: only the fields that are present are replaced.
pub struct UpdateNoteRequest {
    pub title: Option<Vec<u8>>,
    pub body: Option<Vec<u8>>,
    pub tags: Option<Vec<Vec<u8>>>,
}

impl View for UpdateNoteRequest {
    type V = PatchView;

    open spec fn view(&self) -> PatchView {
        PatchView {
            title: match self.title {
                Option::Some(t) => Option::Some(t@),
                Option::None => Option::None,
            },
            body: match self.body {
                Option::Some(b) => Option::Some(b@),
                Option::None => Option::None,
            },
            tags: match self.tags {
                Option::Some(t) => Option::Some(t.deep_view()),
                Option::None => Option::None,
            },
        }
    }
}

/// The fields a new note is created from.
pub struct CreateNoteRequest {
    pub user_id: u128,
    pub title: Vec<u8>,
    pub body: Vec<u8>,
    pub tags: Vec<Vec<u8>>,
}

/// The note that results from applying one partial update at time `now`.
/// Absent fields are left unchanged, the revision grows by exactly one, and
/// the update timestamp advances to `now` (never behind the creation time).
pub open spec fn apply_patch(n: NoteView, p: PatchView, now: int) -> NoteView {
    NoteView {
        id: n.id,
        user_id: n.user_id,
        title: if p.title is Some {
            p.title->Some_0
        } else {
            n.title
        },
        body: if p.body is Some {
            p.body->Some_0
        } else {
            n.body
        },
        revision: n.revision + 1,
        tags: if p.tags is Some {
            p.tags->Some_0
        } else {
            n.tags
        },
        created_at: n.created_at,
        updated_at: if now >= n.created_at {
            now
        } else {
            n.created_at
        },
    }
}

/// The view of a new note created at time `now`.
pub open spec fn fresh_note(id: u128, req: CreateNoteRequest, now: int) -> NoteView {
    NoteView {
        id: id,
        user_id: req.user_id,
        title: req.title@,
        body: req.body@,
        revision: 1,
        tags: req.tags.deep_view(),
        created_at: now,
        updated_at: now,
    }
}

/// The views of a sequence of notes.
pub open spec fn views_of(s: Seq<Note>) -> Seq<NoteView> {
    s.map_values(|n: Note| n@)
}

/// Descending order on the update timestamp.
pub open spec fn sorted_desc(s: Seq<NoteView>) -> bool {
    forall|i: int, j: int| 0 <= i <= j < s.len() ==> s[i].updated_at >= s[j].updated_at
}

/// In-memory revisioned note store. Each note appears once, keyed by its
/// identifier.
pub struct NoteStore {
    pub notes: Vec<Note>,
}

impl View for NoteStore {
    type V = Seq<NoteView>;

    open spec fn view(&self) -> Seq<NoteView> {
        views_of(self.notes@)
    }
}

impl NoteStore {
    /// Well-formedness: identifiers are unique and every stored note
    /// satisfies the note invariant.
    pub open spec fn wf(self) -> bool {
        &&& forall|i: int, j: int|
            0 <= i < j < self@.len() ==> (#[trigger] self@[i]).id != (#[trigger] self@[j]).id
        &&& forall|i: int| 0 <= i < self@.len() ==> (#[trigger] self@[i]).wf()
    }

    /// Whether a note with this identifier is stored.
    pub open spec fn contains_id(self, id: u128) -> bool {
        exists|i: int| 0 <= i < self@.len() && (#[trigger] self@[i]).id == id
    }

    /// The position of the note with this identifier.
    pub open spec fn index_of(self, id: u128) -> int {
        choose|i: int| 0 <= i < self@.len() && (#[trigger] self@[i]).id == id
    }

    /// The stored view of the note with this identifier.
    pub open spec fn spec_get(self, id: u128) -> NoteView {
        self@[self.index_of(id)]
    }

    /// An empty store.
    pub fn new() -> (r: NoteStore)
        ensures
            r.wf(),
            r@ == Seq::<NoteView>::empty(),
    {
        let r = NoteStore { notes: Vec::new() };
        proof {
            assert(r@ =~= Seq::<NoteView>::empty());
        }
        r
    }

    fn find_index(&self, id: u128) -> (r: Option<usize>)
        ensures
            match r {
                Some(i) => i < self@.len() && self@[i as int].id == id,
                None => !self.contains_id(id),
            },
            r is Some <==> self.contains_id(id),
    {
        let mut i: usize = 0;
        while i < self.notes.len()
            invariant
                i <= self.notes.len(),
                forall|j: int| 0 <= j < i ==> (#[trigger] self@[j]).id != id,
            decreases self.notes.len() - i,
        {
            if self.notes[i].id == id {
                return Some(i);
            }
            i += 1;
        }
        None
    }

    /// Creates a note with the given identifier: revision 1, both timestamps
    /// set to `now`. Fails only when the identifier is already taken, which
    /// models a uniqueness violation at the durable medium.
    pub fn create_note(&mut self, id: u128, req: CreateNoteRequest, now: i64) -> (r: Result<
        Note,
        AppError,
    >)
        requires
            old(self).wf(),
        ensures
            final(self).wf(),
            old(self).contains_id(id) ==> (r matches Err(e) && e is InternalServerError
                && final(self)@ == old(self)@),
            !old(self).contains_id(id) ==> (r matches Ok(n) && n@ == fresh_note(id, req, now as int)
                && final(self)@ == old(self)@.push(n@) && final(self).contains_id(id)),
    {
        match self.find_index(id) {
            Some(_) => Err(AppError::InternalServerError),
            None => {
                let note = Note {
                    id,
                    user_id: req.user_id,
                    title: req.title,
                    body: req.body,
                    revision: 1,
                    tags: req.tags,
                    created_at: now,
                    updated_at: now,
                };
                let copy = note.duplicate();
                self.notes.push(note);
                proof {
                    assert(self@ =~= old(self)@.push(copy@));
                    assert(self@[self@.len() - 1].id == id);
                }
                Ok(copy)
            },
        }
    }

    /// Creates a note under a freshly drawn random identifier, as notes
    /// arriving at the service are created. The identifier is random, so the
    /// contract holds for every value it may take: the call succeeds exactly
    /// when the drawn identifier was not already stored, and a collision
    /// surfaces as a storage failure with nothing changed.
    pub fn create_note_auto(&mut self, req: CreateNoteRequest, now: i64) -> (r: Result<
        Note,
        AppError,
    >)
        requires
            old(self).wf(),
        ensures
            final(self).wf(),
            r matches Ok(n) ==> !old(self).contains_id(n@.id) && n@ == fresh_note(
                n@.id,
                req,
                now as int,
            ) && final(self)@ == old(self)@.push(n@),
            r matches Err(e) ==> e is InternalServerError && final(self)@ == old(self)@,
    {
        let id = fresh_id();
        self.create_note(id, req, now)
    }

    /// Returns a copy of the stored note, or `NotFound` when no note has
    /// this identifier.
    pub fn get_note(&self, id: u128) -> (r: Result<Note, AppError>)
        requires
            self.wf(),
        ensures
            self.contains_id(id) ==> (r matches Ok(n) && n@ == self.spec_get(id)),
            !self.contains_id(id) ==> (r matches Err(e) && e is NotFound),
    {
        match self.find_index(id) {
            Some(i) => {
                proof {
                    assert(self.index_of(id) == i as int);
                }
                Ok(self.notes[i].duplicate())
            },
            None => Err(AppError::NotFound),
        }
    }

    /// Applies a partial update to the stored note: fields present in the
    /// request replace the stored ones, absent fields are left untouched,
    /// the revision grows by exactly one and the update timestamp moves to
    /// `now`. Returns a copy of the updated note; `NotFound` when the
    /// identifier is absent, and a storage failure when the revision counter
    /// is exhausted, leaving the store unchanged either way.
    pub fn update_note(&mut self, id: u128, req: &UpdateNoteRequest, now: i64) -> (r: Result<
        Note,
        AppError,
    >)
        requires
            old(self).wf(),
        ensures
            final(self).wf(),
            !old(self).contains_id(id) ==> (r matches Err(e) && e is NotFound && final(self)@
                == old(self)@),
            old(self).contains_id(id) && old(self).spec_get(id).revision < i64::MAX ==> (r matches Ok(
                n,
            ) && n@ == apply_patch(old(self).spec_get(id), req@, now as int) && final(self)@
                == old(self)@.update(old(self).index_of(id), n@)),
            old(self).contains_id(id) && old(self).spec_get(id).revision == i64::MAX ==> (r matches Err(
                e,
            ) && e is InternalServerError && final(self)@ == old(self)@),
    {
        match self.find_index(id) {
            None => Err(AppError::NotFound),
            Some(i) => {
                proof {
                    assert(0 <= self.index_of(id) < self@.len() && self@[self.index_of(id)].id
                        == id);
                    assert(self.index_of(id) == i as int);
                }
                let mut note = self.notes.remove(i);
                if note.revision == i64::MAX {
                    self.notes.insert(i, note);
                    proof {
                        assert(self@ =~= old(self)@);
                    }
                    Err(AppError::InternalServerError)
                } else {
                    if let Some(t) = &req.title {
                        note.title = clone_bytes(t);
                    }
                    if let Some(b) = &req.body {
                        note.body = clone_bytes(b);
                    }
                    if let Some(tg) = &req.tags {
                        note.tags = clone_tags(tg);
                    }
                    note.revision = note.revision + 1;
                    if now > note.updated_at {
                        note.updated_at = now;
                    } else if now >= note.created_at {
                        note.updated_at = now;
                    } else {
                        note.updated_at = note.created_at;
                    }
                    let copy = note.duplicate();
                    self.notes.insert(i, note);
                    proof {
                        assert(copy@ == apply_patch(old(self)@[i as int], req@, now as int));
                        assert(self@ =~= old(self)@.update(i as int, copy@));
                    }
                    Ok(copy)
                }
            },
        }
    }

    /// Removes the note with this identifier; `NotFound` when it is absent.
    pub fn delete_note(&mut self, id: u128) -> (r: Result<(), AppError>)
        requires
            old(self).wf(),
        ensures
            final(self).wf(),
            !old(self).contains_id(id) ==> (r matches Err(e) && e is NotFound && final(self)@
                == old(self)@),
            old(self).contains_id(id) ==> (r is Ok && final(self)@ == old(self)@.remove(
                old(self).index_of(id),
            )),
            !final(self).contains_id(id),
    {
        match self.find_index(id) {
            None => Err(AppError::NotFound),
            Some(i) => {
                proof {
                    assert(self.index_of(id) == i as int);
                }
                self.notes.remove(i);
                proof {
                    assert(self@ =~= old(self)@.remove(i as int));
                }
                Ok(())
            },
        }
    }

    /// All notes of one owner, newest update first. The result holds exactly
    /// the stored notes whose `user_id` matches, ordered by `updated_at`
    /// descending.
    pub fn list_notes(&self, user_id: u128) -> (r: Vec<Note>)
        ensures
            views_of(r@).to_multiset() == self@.filter(
                |n: NoteView| n.user_id == user_id,
            ).to_multiset(),
            sorted_desc(views_of(r@)),
    {
        let ghost pred = |n: NoteView| n.user_id == user_id;
        let mut out: Vec<Note> = Vec::new();
        let mut i: usize = 0;
        while i < self.notes.len()
            invariant
                i <= self.notes.len(),
                views_of(out@) == self@.take(i as int).filter(
                    |n: NoteView| n.user_id == user_id,
                ),
            decreases self.notes.len() - i,
        {
            proof {
                reveal(Seq::filter);
                assert(self@.take(i + 1).drop_last() =~= self@.take(i as int));
                assert(self@.take(i + 1).last() == self@[i as int]);
            }
            if self.notes[i].user_id == user_id {
                out.push(self.notes[i].duplicate());
                proof {
                    assert(views_of(out@) =~= self@.take(i + 1).filter(
                        |n: NoteView| n.user_id == user_id,
                    ));
                }
            } else {
                proof {
                    assert(views_of(out@) =~= self@.take(i + 1).filter(
                        |n: NoteView| n.user_id == user_id,
                    ));
                }
            }
            i += 1;
        }
        proof {
            assert(self@.take(self.notes@.len() as int) =~= self@);
        }
        sort_notes_desc(&mut out);
        out
    }
}

/// Sorts notes by update timestamp, newest first, keeping exactly the same
/// collection of notes.
fn sort_notes_desc(v: &mut Vec<Note>)
    ensures
        views_of(final(v)@).to_multiset() == views_of(old(v)@).to_multiset(),
        sorted_desc(views_of(final(v)@)),
{
    broadcast use vstd::seq_lib::to_multiset_insert;
    broadcast use vstd::seq_lib::group_to_multiset_ensures;

    let mut i: usize = 1;
    while i < v.len()
        invariant
            1 <= i,
            views_of(v@).to_multiset() == views_of(old(v)@).to_multiset(),
            v@.len() == old(v)@.len(),
            sorted_desc(views_of(v@).take(if i <= v@.len() {
                i as int
            } else {
                v@.len() as int
            })),
        decreases v.len() - i,
    {
        let key = v[i].updated_at;
        let mut j: usize = i;
        while j > 0 && v[j - 1].updated_at < key
            invariant
                j <= i < v@.len(),
                key == views_of(v@)[i as int].updated_at,
                forall|k: int| j <= k < i ==> (#[trigger] views_of(v@)[k]).updated_at < key,
            decreases j,
        {
            j -= 1;
        }
        let ghost pre = views_of(v@);
        let x = v.remove(i);
        v.insert(j, x);
        proof {
            let mid = pre.remove(i as int);
            let post = views_of(v@);
            assert(sorted_desc(pre.take(i as int)));
            vstd::seq_lib::to_multiset_insert(mid, j as int, pre[i as int]);
            assert(post =~= mid.insert(j as int, pre[i as int]));
            vstd::seq_lib::to_multiset_remove(pre, i as int);
            pre.to_multiset_ensures();
            assert(pre.contains(pre[i as int]));
            assert(pre.to_multiset().count(pre[i as int]) > 0);
            assert(post.to_multiset() =~= pre.to_multiset());
            assert forall|a: int, b: int| 0 <= a <= b < i + 1 implies post[a].updated_at
                >= post[b].updated_at by {
                assert(forall|k: int| 0 <= k < j ==> post[k] == pre[k]);
                assert(post[j as int] == pre[i as int]);
                assert(forall|k: int| j < k <= i ==> post[k] == pre[k - 1]);
                if j > 0 {
                    assert(pre[j - 1].updated_at >= key);
                }
            }
            assert(sorted_desc(post.take(i + 1)));
        }
        i += 1;
    }
    proof {
        if v@.len() > 0 {
            assert(views_of(v@).take(v@.len() as int) =~= views_of(v@));
        } else {
            assert(views_of(v@) =~= views_of(v@).take(0));
        }
    }
}

/// A note after a whole sequence of successful partial updates, applied in
/// order; each element pairs the patch with the time it was applied at.
pub open spec fn apply_patches(n: NoteView, ps: Seq<(PatchView, int)>) -> NoteView
    decreases ps.len(),
{
    if ps.len() == 0 {
        n
    } else {
        apply_patch(apply_patches(n, ps.drop_last()), ps.last().0, ps.last().1)
    }
}

/// Revision monotonicity: over any sequence of successful updates the stored
/// revision grows by exactly one per update — after `k + 1` updates it is the
/// initial revision plus `k + 1`, strictly increasing, with no gaps and no
/// resets.
pub proof fn lemma_revision_monotonic(n: NoteView, ps: Seq<(PatchView, int)>)
    ensures
        apply_patches(n, ps).revision == n.revision + ps.len(),
        forall|k: int|
            0 <= k < ps.len() ==> apply_patches(n, #[trigger] ps.take(k + 1)).revision
                == apply_patches(n, ps.take(k)).revision + 1,
    decreases ps.len(),
{
    if ps.len() > 0 {
        lemma_revision_monotonic(n, ps.drop_last());
    }
    assert forall|k: int| 0 <= k < ps.len() implies apply_patches(
        n,
        #[trigger] ps.take(k + 1),
    ).revision == apply_patches(n, ps.take(k)).revision + 1 by {
        let t = ps.take(k + 1);
        assert(t.drop_last() =~= ps.take(k));
        assert(t.last() == ps[k]);
        assert(apply_patches(n, t) == apply_patch(apply_patches(n, ps.take(k)), ps[k].0, ps[k].1));
    }
}

/// A partial update preserves every field it does not name: updating only the
/// title leaves body and tags exactly as they were, and likewise for the
/// other fields; identifier, owner and creation time never change.
pub proof fn lemma_partial_update_preserves(n: NoteView, p: PatchView, now: int)
    ensures
        p.title is None ==> apply_patch(n, p, now).title == n.title,
        p.body is None ==> apply_patch(n, p, now).body == n.body,
        p.tags is None ==> apply_patch(n, p, now).tags == n.tags,
        apply_patch(n, p, now).id == n.id,
        apply_patch(n, p, now).user_id == n.user_id,
        apply_patch(n, p, now).created_at == n.created_at,
{
}

} // verus!
