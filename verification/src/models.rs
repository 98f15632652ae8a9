//! Data model of the note service. Identifiers are carried as their 128-bit
//! values, timestamps as unix seconds, and all text as raw bytes.

use vstd::prelude::*;

verus! {

/// Mathematical model of a [`Note`].
pub ghost struct NoteView {
    pub id: u128,
    pub user_id: u128,
    pub title: Seq<u8>,
    pub body: Seq<u8>,
    pub revision: int,
    pub tags: Seq<Seq<u8>>,
    pub created_at: int,
    pub updated_at: int,
}

/// A note owned by one user. `revision` strictly increases on every
/// successful mutation; `updated_at` never precedes `created_at`.
pub struct Note {
    /// Unique identifier of the note.
    pub id: u128,
    /// Identifier of the user who owns the note.
    pub user_id: u128,
    /// Title or headline of the note.
    pub title: Vec<u8>,
    /// Main content body of the note.
    pub body: Vec<u8>,
    /// Revision count, starting at 1 on creation.
    pub revision: i64,
    /// Tags associated with the note, in order.
    pub tags: Vec<Vec<u8>>,
    /// Unix timestamp of creation.
    pub created_at: i64,
    /// Unix timestamp of the last update.
    pub updated_at: i64,
}

impl View for Note {
    type V = NoteView;

    open spec fn view(&self) -> NoteView {
        NoteView {
            id: self.id,
            user_id: self.user_id,
            title: self.title@,
            body: self.body@,
            revision: self.revision as int,
            tags: self.tags.deep_view(),
            created_at: self.created_at as int,
            updated_at: self.updated_at as int,
        }
    }
}

impl NoteView {
    /// Structural invariant every stored note satisfies.
    pub open spec fn wf(self) -> bool {
        &&& 1 <= self.revision <= i64::MAX
        &&& self.created_at <= self.updated_at
    }
}

/// A user of the service; the credential hash is kept apart.
pub struct User {
    /// Unique identifier of the user.
    pub id: u128,
    /// Login name, unique across users.
    pub username: Vec<u8>,
}

/// One recorded version of a note's body, for history and reverts.
pub struct Revision {
    /// Unique identifier of the revision record.
    pub id: u128,
    /// The note this revision belongs to.
    pub note_id: u128,
    /// Revision count the note had when this snapshot was taken.
    pub revision_number: i64,
    /// Body snapshot for this revision.
    pub body: Vec<u8>,
    /// Unix timestamp when this revision was recorded.
    pub created_at: i64,
}

/// Claims carried by an authentication token.
pub struct Claims {
    /// Identifier of the user the token refers to.
    pub sub: u128,
    /// Login name of the authenticated user.
    pub username: Vec<u8>,
    /// Unix timestamp after which the token is no longer valid.
    pub exp: i64,
}

/// Copies a byte vector; the copy holds the same bytes.
pub fn clone_bytes(v: &Vec<u8>) -> (r: Vec<u8>)
    ensures
        r@ == v@,
{
    let r = v.clone();
    proof {
        assert(r@ =~= v@);
    }
    r
}

/// Copies a vector of byte vectors; the copy holds the same sequences.
pub fn clone_tags(v: &Vec<Vec<u8>>) -> (r: Vec<Vec<u8>>)
    ensures
        r.deep_view() == v.deep_view(),
{
    let r = v.clone();
    proof {
        assert forall|i: int| 0 <= i < v@.len() implies r@[i]@ == v@[i]@ by {
            assert(cloned::<Vec<u8>>(v@[i], r@[i]));
            assert(r@[i]@ =~= v@[i]@);
        }
        assert(r.deep_view() =~= v.deep_view());
    }
    r
}

impl Note {
    /// Copies a note; the copy has the same view.
    pub fn duplicate(&self) -> (r: Note)
        ensures
            r@ == self@,
    {
        Note {
            id: self.id,
            user_id: self.user_id,
            title: clone_bytes(&self.title),
            body: clone_bytes(&self.body),
            revision: self.revision,
            tags: clone_tags(&self.tags),
            created_at: self.created_at,
            updated_at: self.updated_at,
        }
    }
}

} // verus!
