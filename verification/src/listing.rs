//! The order in which notes are shown: newest first, by the time stamp that
//! each note carries as text.

use vstd::prelude::*;
use vstd::string::*;
use vstd::seq_lib::to_multiset_insert;
use crate::model::{notes_view, Note, NoteView};

verus! {

/// Dictionary order on texts: `a` comes before `b`, or is `b`. Characters are
/// compared by their code points, which is the order that the bytes of two
/// strings have.
pub open spec fn text_le(a: Seq<char>, b: Seq<char>) -> bool
    decreases a.len(),
{
    if a.len() == 0 {
        true
    } else if b.len() == 0 {
        false
    } else if a[0] != b[0] {
        a[0] < b[0]
    } else {
        text_le(a.drop_first(), b.drop_first())
    }
}

/// Of two texts one comes before the other, or they are the same.
pub proof fn lemma_text_le_total(a: Seq<char>, b: Seq<char>)
    ensures
        text_le(a, b) || text_le(b, a),
    decreases a.len(),
{
    if a.len() > 0 && b.len() > 0 && a[0] == b[0] {
        lemma_text_le_total(a.drop_first(), b.drop_first());
    }
}

/// What comes before something that comes before a third comes before the
/// third.
pub proof fn lemma_text_le_transitive(a: Seq<char>, b: Seq<char>, c: Seq<char>)
    requires
        text_le(a, b),
        text_le(b, c),
    ensures
        text_le(a, c),
    decreases a.len(),
{
    if a.len() > 0 && b.len() > 0 && c.len() > 0 && a[0] == b[0] && b[0] == c[0] {
        lemma_text_le_transitive(a.drop_first(), b.drop_first(), c.drop_first());
    }
}

/// The list is newest first: no note is shown before a newer one.
pub open spec fn is_newest_first(list: Seq<NoteView>) -> bool {
    forall|i: int, j: int|
        0 <= i < j < list.len() ==> text_le(
            (#[trigger] list[j]).datetime,
            (#[trigger] list[i]).datetime,
        )
}

/// Where `note` goes in a list that is newest first: behind every note that is
/// at least as new, so that notes of the same time keep the order in which
/// they came.
pub open spec fn place_for(list: Seq<NoteView>, note: NoteView) -> int
    decreases list.len(),
{
    if list.len() == 0 {
        0
    } else if text_le(note.datetime, list.last().datetime) {
        list.len() as int
    } else {
        place_for(list.drop_last(), note)
    }
}

/// The notes in the order in which they are shown: each one put in its place
/// among those that came before it.
pub open spec fn newest_first(notes: Seq<NoteView>) -> Seq<NoteView>
    decreases notes.len(),
{
    if notes.len() == 0 {
        Seq::empty()
    } else {
        let before = newest_first(notes.drop_last());
        before.insert(place_for(before, notes.last()), notes.last())
    }
}

/// The place for a note is within the list; every note from there on is older,
/// and the note just before it, if there is one, is at least as new.
proof fn lemma_place_for(list: Seq<NoteView>, note: NoteView)
    ensures
        0 <= place_for(list, note) <= list.len(),
        forall|k: int|
            place_for(list, note) <= k < list.len() ==> !text_le(
                note.datetime,
                (#[trigger] list[k]).datetime,
            ),
        place_for(list, note) > 0 ==> text_le(
            note.datetime,
            list[place_for(list, note) - 1].datetime,
        ),
    decreases list.len(),
{
    if list.len() > 0 && !text_le(note.datetime, list.last().datetime) {
        let fewer = list.drop_last();
        lemma_place_for(fewer, note);
        assert forall|k: int| place_for(list, note) <= k < list.len() implies !text_le(
            note.datetime,
            (#[trigger] list[k]).datetime,
        ) by {
            if k < fewer.len() {
                assert(fewer[k] == list[k]);
            }
        }
        if place_for(list, note) > 0 {
            assert(fewer[place_for(list, note) - 1] == list[place_for(list, note) - 1]);
        }
    }
}

/// Putting a note in its place keeps a list newest first.
proof fn lemma_insert_keeps_order(list: Seq<NoteView>, note: NoteView)
    requires
        is_newest_first(list),
    ensures
        is_newest_first(list.insert(place_for(list, note), note)),
{
    let p = place_for(list, note);
    let after = list.insert(p, note);
    lemma_place_for(list, note);
    assert forall|i: int, j: int| 0 <= i < j < after.len() implies text_le(
        (#[trigger] after[j]).datetime,
        (#[trigger] after[i]).datetime,
    ) by {
        if j < p {
            assert(after[i] == list[i] && after[j] == list[j]);
        } else if j == p {
            assert(after[j] == note);
            assert(after[i] == list[i]);
            assert(text_le(note.datetime, list[p - 1].datetime));
            if i < p - 1 {
                assert(text_le(list[p - 1].datetime, list[i].datetime));
                lemma_text_le_transitive(note.datetime, list[p - 1].datetime, list[i].datetime);
            }
        } else if i < p {
            assert(after[i] == list[i] && after[j] == list[j - 1]);
            if i < j - 1 {
                assert(text_le(list[j - 1].datetime, list[i].datetime));
            }
        } else if i == p {
            assert(after[i] == note && after[j] == list[j - 1]);
            assert(!text_le(note.datetime, list[j - 1].datetime));
            lemma_text_le_total(note.datetime, list[j - 1].datetime);
        } else {
            assert(after[i] == list[i - 1] && after[j] == list[j - 1]);
            assert(text_le(list[j - 1].datetime, list[i - 1].datetime));
        }
    }
}

/// The notes as they are shown are newest first.
pub proof fn lemma_newest_first_is_ordered(notes: Seq<NoteView>)
    ensures
        is_newest_first(newest_first(notes)),
    decreases notes.len(),
{
    if notes.len() > 0 {
        lemma_newest_first_is_ordered(notes.drop_last());
        lemma_insert_keeps_order(newest_first(notes.drop_last()), notes.last());
    }
}

/// The notes as they are shown are the notes that there are: each as often as
/// it was given.
pub proof fn lemma_newest_first_is_permutation(notes: Seq<NoteView>)
    ensures
        newest_first(notes).len() == notes.len(),
        newest_first(notes).to_multiset() == notes.to_multiset(),
    decreases notes.len(),
{
    broadcast use vstd::seq_lib::group_to_multiset_ensures;

    if notes.len() == 0 {
        assert(notes =~= Seq::<NoteView>::empty());
    } else {
        let fewer = notes.drop_last();
        let before = newest_first(fewer);
        lemma_newest_first_is_permutation(fewer);
        lemma_place_for(before, notes.last());
        to_multiset_insert(before, place_for(before, notes.last()), notes.last());
        assert(notes =~= fewer.push(notes.last()));
        assert(fewer.push(notes.last()).to_multiset() =~= fewer.to_multiset().insert(notes.last()));
    }
}

/// The characters of a text.
fn chars_of(s: &str) -> (r: Vec<char>)
    ensures
        r@ == s@,
{
    broadcast use vstd::string::group_string_axioms;

    let mut out: Vec<char> = Vec::new();
    let chars = s.chars();
    for c in it: chars
        invariant
            it.seq() == s@,
            out@ == s@.take(it.index()),
    {
        out.push(c);
        assert(s@.take(it.index() + 1) =~= s@.take(it.index()).push(c));
    }
    assert(s@.take(s@.len() as int) =~= s@);
    out
}

/// Tells whether `a` comes before `b` in dictionary order, or is `b`.
pub fn text_comes_first(a: &str, b: &str) -> (r: bool)
    ensures
        r == text_le(a@, b@),
{
    let x: Vec<char> = chars_of(a);
    let y: Vec<char> = chars_of(b);
    let mut i: usize = 0;
    assert(x@.skip(0) =~= x@ && y@.skip(0) =~= y@);
    while i < x.len() && i < y.len()
        invariant
            i <= x@.len(),
            i <= y@.len(),
            x@ == a@,
            y@ == b@,
            text_le(a@, b@) == text_le(x@.skip(i as int), y@.skip(i as int)),
        decreases x@.len() - i,
    {
        let ghost xs = x@.skip(i as int);
        let ghost ys = y@.skip(i as int);
        assert(xs[0] == x@[i as int] && ys[0] == y@[i as int]);
        assert(xs.drop_first() =~= x@.skip(i + 1));
        assert(ys.drop_first() =~= y@.skip(i + 1));
        if x[i] != y[i] {
            return x[i] < y[i];
        }
        i = i + 1;
    }
    i == x.len()
}

/// Puts the notes in the order in which they are shown: newest first, notes of
/// the same time in the order in which they came.
pub fn sort_newest_first(notes: &Vec<Note>) -> (r: Vec<Note>)
    ensures
        notes_view(r@) == newest_first(notes_view(notes@)),
{
    let ghost all = notes_view(notes@);
    let mut out: Vec<Note> = Vec::new();
    let mut i: usize = 0;
    assert(all.take(0) =~= Seq::<NoteView>::empty());
    assert(notes_view(out@) =~= Seq::<NoteView>::empty());
    while i < notes.len()
        invariant
            i <= notes@.len(),
            all == notes_view(notes@),
            notes_view(out@) == newest_first(all.take(i as int)),
        decreases notes@.len() - i,
    {
        let note: Note = notes[i].clone();
        let ghost list = notes_view(out@);
        assert(all.take(i + 1).drop_last() =~= all.take(i as int));
        assert(all.take(i + 1).last() == note@);
        let mut p: usize = out.len();
        assert(list.take(p as int) =~= list);
        while p > 0 && !text_comes_first(note.datetime.as_str(), out[p - 1].datetime.as_str())
            invariant
                p <= out@.len(),
                list == notes_view(out@),
                place_for(list, note@) == place_for(list.take(p as int), note@),
            decreases p,
        {
            assert(list.take(p as int).last() == out@[p - 1]@);
            assert(list.take(p as int).drop_last() =~= list.take(p - 1));
            p = p - 1;
        }
        proof {
            if p > 0 {
                assert(list.take(p as int).last() == out@[p - 1]@);
            }
            assert(place_for(list, note@) == p);
        }
        let ghost before = out@;
        out.insert(p, note);
        assert(notes_view(out@) =~= notes_view(before).insert(p as int, note@));
        i = i + 1;
    }
    assert(all.take(i as int) =~= all);
    out
}

} // verus!
