//! The note records and the pure record logic: id assignment, lookup,
//! removal, replacement and substring search. Loading and saving the
//! records belongs to the host program, which hands the list in and takes
//! it back.

use vstd::prelude::*;
use vstd::string::*;

verus! {

/// One note: a numeric id, its text, and its tags.
#[derive(Debug, Clone)]
pub struct RusticNote {
    pub id: u32,
    pub content: String,
    pub tags: Vec<String>,
}

/// The mathematical shape of a note.
pub struct NoteView {
    pub id: u32,
    pub content: Seq<char>,
    pub tags: Seq<Seq<char>>,
}

impl View for RusticNote {
    type V = NoteView;

    open spec fn view(&self) -> NoteView {
        NoteView { id: self.id, content: self.content@, tags: self.tags.deep_view() }
    }
}

impl DeepView for RusticNote {
    type V = NoteView;

    open spec fn deep_view(&self) -> NoteView {
        self.view()
    }
}

/// The largest id of the list, zero when it is empty.
pub open spec fn spec_max_id(notes: Seq<NoteView>) -> int
    decreases notes.len(),
{
    if notes.len() == 0 {
        0
    } else {
        let rest = spec_max_id(notes.skip(1));
        if notes[0].id > rest {
            notes[0].id as int
        } else {
            rest
        }
    }
}

/// The first note carrying `id`, if any.
pub open spec fn find_note(notes: Seq<NoteView>, id: u32) -> Option<NoteView>
    decreases notes.len(),
{
    if notes.len() == 0 {
        None
    } else if notes[0].id == id {
        Some(notes[0])
    } else {
        find_note(notes.skip(1), id)
    }
}

/// The position of the first note carrying `id`, if any.
pub open spec fn first_note_index(notes: Seq<NoteView>, id: u32) -> Option<int>
    decreases notes.len(),
{
    if notes.len() == 0 {
        None
    } else if notes[0].id == id {
        Some(0int)
    } else {
        match first_note_index(notes.skip(1), id) {
            Some(j) => Some(j + 1),
            None => None,
        }
    }
}

/// The list without the notes carrying `id`.
pub open spec fn spec_remove_notes(notes: Seq<NoteView>, id: u32) -> Seq<NoteView>
    decreases notes.len(),
{
    if notes.len() == 0 {
        Seq::empty()
    } else {
        let rest = spec_remove_notes(notes.skip(1), id);
        if notes[0].id != id {
            seq![notes[0]] + rest
        } else {
            rest
        }
    }
}

/// Whether `needle` occurs contiguously inside `hay`.
pub open spec fn seq_contains_sub(hay: Seq<char>, needle: Seq<char>) -> bool {
    exists|k: int|
        0 <= k && k + needle.len() <= hay.len() && #[trigger] hay.subrange(k, k + needle.len() as int)
            == needle
}

/// The notes whose content holds `query` as a substring, in order.
pub open spec fn spec_search_notes(notes: Seq<NoteView>, query: Seq<char>) -> Seq<NoteView>
    decreases notes.len(),
{
    if notes.len() == 0 {
        Seq::empty()
    } else {
        let rest = spec_search_notes(notes.skip(1), query);
        if seq_contains_sub(notes[0].content, query) {
            seq![notes[0]] + rest
        } else {
            rest
        }
    }
}

/// A structurally equal copy of a string list.
fn clone_string_vec(v: &Vec<String>) -> (r: Vec<String>)
    ensures
        r.deep_view() == v.deep_view(),
{
    let mut r: Vec<String> = Vec::new();
    let n = v.len();
    let mut i: usize = 0;
    while i < n
        invariant
            n == v.len(),
            i <= n,
            r@.len() == i,
            forall|j: int| 0 <= j < i ==> #[trigger] r.deep_view()[j] == v.deep_view()[j],
        decreases n - i,
    {
        let ghost r0 = r@;
        let ghost d0 = r.deep_view();
        r.push(v[i].clone());
        proof {
            assert forall|j: int| 0 <= j < i + 1 implies #[trigger] r.deep_view()[j]
                == v.deep_view()[j] by {
                assert(r.deep_view()[j] == r@[j].deep_view());
                if j < i {
                    assert(d0[j] == v.deep_view()[j]);
                    assert(d0[j] == r0[j].deep_view());
                    assert(r@[j] == r0[j]);
                } else {
                    assert(r@[j] == v@[i as int]);
                }
            }
        }
        i += 1;
    }
    proof {
        assert(r.deep_view() =~= v.deep_view());
    }
    r
}

/// A copy of one note with the same view.
fn clone_note(n: &RusticNote) -> (r: RusticNote)
    ensures
        r@ == n@,
{
    RusticNote { id: n.id, content: n.content.clone(), tags: clone_string_vec(&n.tags) }
}

impl RusticNote {
    /// A fresh note over the existing list: the next free id, the given
    /// content and tags.
    pub fn new(existing: &Vec<RusticNote>, content: String, tags: Vec<String>) -> (r: RusticNote)
        requires
            spec_max_id(existing.deep_view()) < u32::MAX,
        ensures
            r.id == spec_max_id(existing.deep_view()) + 1,
            r.content == content,
            r.tags == tags,
    {
        RusticNote { id: get_next_id(existing), content, tags }
    }
}

/// One more than the largest id in use; one for an empty list.
pub fn get_next_id(notes: &Vec<RusticNote>) -> (r: u32)
    requires
        spec_max_id(notes.deep_view()) < u32::MAX,
    ensures
        r == spec_max_id(notes.deep_view()) + 1,
{
    let ghost dv = notes.deep_view();
    let n = notes.len();
    let mut biggest_id: u32 = 0;
    let mut i: usize = 0;
    proof {
        assert(dv.skip(0) =~= dv);
    }
    while i < n
        invariant
            n == notes.len(),
            dv == notes.deep_view(),
            i <= n,
            spec_max_id(dv) == (if biggest_id as int > spec_max_id(dv.skip(i as int)) {
                biggest_id as int
            } else {
                spec_max_id(dv.skip(i as int))
            }),
        decreases n - i,
    {
        proof {
            assert(dv.skip(i as int)[0] == dv[i as int]);
            assert(dv.skip(i as int).skip(1) =~= dv.skip(i as int + 1));
        }
        if notes[i].id > biggest_id {
            biggest_id = notes[i].id;
        }
        i += 1;
    }
    proof {
        assert(spec_max_id(dv.skip(n as int)) == 0);
        assert(biggest_id as int == spec_max_id(dv));
    }
    biggest_id + 1
}

/// The first note carrying `id`, copied out of the list.
pub fn get_note_by_id(notes: &Vec<RusticNote>, id: u32) -> (r: Option<RusticNote>)
    ensures
        match r {
            Some(note) => find_note(notes.deep_view(), id) == Some(note@),
            None => find_note(notes.deep_view(), id) is None,
        },
{
    let ghost dv = notes.deep_view();
    let n = notes.len();
    let mut i: usize = 0;
    proof {
        assert(dv.skip(0) =~= dv);
    }
    while i < n
        invariant
            n == notes.len(),
            dv == notes.deep_view(),
            i <= n,
            find_note(dv, id) == find_note(dv.skip(i as int), id),
        decreases n - i,
    {
        proof {
            assert(dv.skip(i as int)[0] == dv[i as int]);
            assert(dv.skip(i as int).skip(1) =~= dv.skip(i as int + 1));
        }
        if notes[i].id == id {
            return Some(clone_note(&notes[i]));
        }
        i += 1;
    }
    proof {
        assert(dv.skip(n as int).len() == 0);
    }
    None
}

/// The list with every note carrying `id` removed.
pub fn remove_note_by_id(notes: &Vec<RusticNote>, id: u32) -> (r: Vec<RusticNote>)
    ensures
        r.deep_view() == spec_remove_notes(notes.deep_view(), id),
{
    let ghost dv = notes.deep_view();
    let n = notes.len();
    let mut kept: Vec<RusticNote> = Vec::new();
    let mut i: usize = 0;
    proof {
        assert(dv.skip(0) =~= dv);
        assert(kept.deep_view() + spec_remove_notes(dv, id) =~= spec_remove_notes(dv, id));
    }
    while i < n
        invariant
            n == notes.len(),
            dv == notes.deep_view(),
            i <= n,
            spec_remove_notes(dv, id) == kept.deep_view() + spec_remove_notes(
                dv.skip(i as int),
                id,
            ),
        decreases n - i,
    {
        proof {
            assert(dv.skip(i as int)[0] == dv[i as int]);
            assert(dv.skip(i as int).skip(1) =~= dv.skip(i as int + 1));
        }
        let ghost kept0 = kept.deep_view();
        let ghost rest = spec_remove_notes(dv.skip(i as int + 1), id);
        if notes[i].id != id {
            kept.push(clone_note(&notes[i]));
            proof {
                assert(kept.deep_view() =~= kept0.push(dv[i as int]));
                assert(kept0 + (seq![dv[i as int]] + rest) =~= kept.deep_view() + rest);
            }
        }
        i += 1;
    }
    proof {
        assert(spec_remove_notes(dv.skip(n as int), id) =~= Seq::<NoteView>::empty());
        assert(kept.deep_view() + Seq::<NoteView>::empty() =~= kept.deep_view());
    }
    kept
}

/// Replaces the first note sharing `note`'s id in place, or appends the
/// note when no note carries that id yet.
pub fn upsert_note(notes: Vec<RusticNote>, note: RusticNote) -> (r: Vec<RusticNote>)
    ensures
        ({
            let dv = notes.deep_view();
            match first_note_index(dv, note.id) {
                Some(i) => r.deep_view() == dv.update(i, note@),
                None => r.deep_view() == dv.push(note@),
            }
        }),
{
    let ghost dv = notes.deep_view();
    let n = notes.len();
    let mut i: usize = 0;
    proof {
        assert(dv.skip(0) =~= dv);
    }
    while i < n
        invariant
            n == notes.len(),
            dv == notes.deep_view(),
            i <= n,
            first_note_index(dv, note.id) == (match first_note_index(dv.skip(i as int), note.id) {
                Some(k) => Some(k + i),
                None => None::<int>,
            }),
        decreases n - i,
    {
        proof {
            assert(dv.skip(i as int)[0] == dv[i as int]);
            assert(dv.skip(i as int).skip(1) =~= dv.skip(i as int + 1));
        }
        if notes[i].id == note.id {
            proof {
                assert(first_note_index(dv.skip(i as int), note.id) == Some(0int));
            }
            let mut updated = notes;
            let ghost nv = note@;
            vstd::pervasive::VecAdditionalExecFns::set(&mut updated, i, note);
            proof {
                assert(updated.deep_view() =~= dv.update(i as int, nv));
            }
            return updated;
        }
        i += 1;
    }
    proof {
        assert(dv.skip(n as int).len() == 0);
    }
    let mut appended = notes;
    let ghost nv = note@;
    appended.push(note);
    proof {
        assert(appended.deep_view() =~= dv.push(nv));
    }
    appended
}

/// Whether `needle` occurs inside `hay`.
pub fn str_contains(hay: &str, needle: &str) -> (r: bool)
    ensures
        r == seq_contains_sub(hay@, needle@),
{
    let hl = hay.unicode_len();
    let nl = needle.unicode_len();
    if nl > hl {
        return false;
    }
    if nl == 0 {
        proof {
            assert(hay@.subrange(0, 0 + needle@.len() as int) =~= needle@);
        }
        return true;
    }
    let mut k: usize = 0;
    while k <= hl - nl
        invariant
            hl == hay@.len(),
            nl == needle@.len(),
            0 < nl <= hl,
            k <= hl - nl + 1,
            forall|k2: int|
                0 <= k2 < k ==> #[trigger] hay@.subrange(k2, k2 + needle@.len() as int)
                    != needle@,
        decreases hl + 1 - k,
    {
        let mut j: usize = 0;
        let mut matches = true;
        while j < nl
            invariant
                hl == hay@.len(),
                nl == needle@.len(),
                k + nl <= hl,
                j <= nl,
                matches ==> forall|j2: int| 0 <= j2 < j ==> hay@[k + j2] == needle@[j2],
                !matches ==> hay@.subrange(k as int, k as int + nl as int) != needle@,
            decreases nl - j,
        {
            if hay.get_char(k + j) != needle.get_char(j) {
                proof {
                    assert(hay@.subrange(k as int, k as int + nl as int)[j as int] == hay@[k as int
                        + j as int]);
                }
                matches = false;
                j = nl;
            } else {
                j += 1;
            }
        }
        if matches {
            proof {
                assert(hay@.subrange(k as int, k as int + nl as int) =~= needle@);
            }
            return true;
        }
        k += 1;
    }
    proof {
        assert forall|k2: int|
            0 <= k2 && k2 + needle@.len() <= hay@.len() implies #[trigger] hay@.subrange(
            k2,
            k2 + needle@.len() as int,
        ) != needle@ by {
            assert(k2 < k);
        }
    }
    false
}

/// The notes whose content holds `query`, in their original order.
pub fn slow_search(notes: &[RusticNote], query: &str) -> (r: Vec<RusticNote>)
    ensures
        r.deep_view() == spec_search_notes(notes.deep_view(), query@),
{
    let ghost dv = notes.deep_view();
    let n = notes.len();
    let mut found: Vec<RusticNote> = Vec::new();
    let mut i: usize = 0;
    proof {
        assert(dv.skip(0) =~= dv);
        assert(found.deep_view() + spec_search_notes(dv, query@) =~= spec_search_notes(
            dv,
            query@,
        ));
    }
    while i < n
        invariant
            n == notes.len(),
            dv == notes.deep_view(),
            i <= n,
            spec_search_notes(dv, query@) == found.deep_view() + spec_search_notes(
                dv.skip(i as int),
                query@,
            ),
        decreases n - i,
    {
        proof {
            assert(dv.skip(i as int)[0] == dv[i as int]);
            assert(dv.skip(i as int).skip(1) =~= dv.skip(i as int + 1));
        }
        let ghost found0 = found.deep_view();
        let ghost rest = spec_search_notes(dv.skip(i as int + 1), query@);
        if str_contains(notes[i].content.as_str(), query) {
            found.push(clone_note(&notes[i]));
            proof {
                assert(found.deep_view() =~= found0.push(dv[i as int]));
                assert(found0 + (seq![dv[i as int]] + rest) =~= found.deep_view() + rest);
            }
        }
        i += 1;
    }
    proof {
        assert(spec_search_notes(dv.skip(n as int), query@) =~= Seq::<NoteView>::empty());
        assert(found.deep_view() + Seq::<NoteView>::empty() =~= found.deep_view());
    }
    found
}

} // verus!
