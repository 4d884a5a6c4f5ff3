use vstd::prelude::*;

use crate::signal::Ternary;

verus! {

/// `text` holds `part` as a run of consecutive characters.
pub open spec fn holds_text(text: Seq<char>, part: Seq<char>) -> bool {
    exists|i: int| 0 <= i <= text.len() - part.len() && #[trigger] text.subrange(i, i + part.len()) == part
}

/// Calls `str::contains` with a string pattern, which is documented to
/// return whether the pattern matches a sub-slice of the string; the contract
/// states exactly that, over the character sequences.
#[verifier::external_body]
fn text_contains(text: &str, part: &str) -> (r: bool)
    ensures
        r == holds_text(text@, part@),
{
    text.contains(part)
}

/// Whether a signal with this source and message lies in a lens's focus area:
/// the area is named in the source or in the message.
pub fn in_focus(focus_area: &str, source: &str, message: &str) -> (r: bool)
    ensures
        r == (holds_text(source@, focus_area@) || holds_text(message@, focus_area@)),
{
    text_contains(source, focus_area) || text_contains(message, focus_area)
}

/// The positions, in increasing order, of the (source, message) pairs that
/// lie in the focus area.
pub open spec fn focus_positions(focus_area: Seq<char>, texts: Seq<(Seq<char>, Seq<char>)>) -> Seq<int>
    decreases texts.len(),
{
    if texts.len() == 0 {
        Seq::empty()
    } else {
        let before = focus_positions(focus_area, texts.drop_last());
        if holds_text(texts.last().0, focus_area) || holds_text(texts.last().1, focus_area) {
            before.push(texts.len() - 1)
        } else {
            before
        }
    }
}

/// The positions, in order, of the signals (given by source and message)
/// that lie in a lens's focus area: the signals that the lens keeps.
pub fn focused_positions(focus_area: &str, texts: &[(&str, &str)]) -> (r: Vec<usize>)
    ensures
        r@.map_values(|i: usize| i as int) == focus_positions(
            focus_area@,
            texts@.map_values(|t: (&str, &str)| (t.0@, t.1@)),
        ),
{
    let ghost views = texts@.map_values(|t: (&str, &str)| (t.0@, t.1@));
    let mut out: Vec<usize> = Vec::new();
    let n = texts.len();
    for i in 0..n
        invariant
            n == texts@.len(),
            views == texts@.map_values(|t: (&str, &str)| (t.0@, t.1@)),
            out@.map_values(|i: usize| i as int) == focus_positions(focus_area@, views.take(i as int)),
    {
        assert(views.take(i + 1).drop_last() =~= views.take(i as int));
        assert(views.take(i + 1).last() == (texts@[i as int].0@, texts@[i as int].1@));
        let (source, message) = texts[i];
        if in_focus(focus_area, source, message) {
            out.push(i);
            assert(out@.map_values(|i: usize| i as int) =~= focus_positions(
                focus_area@,
                views.take(i as int),
            ).push(i as int));
        }
    }
    assert(views.take(n as int) =~= views);
    out
}

/// The positions, in increasing order, of the `true` flags.
pub open spec fn active_indices(active: Seq<bool>) -> Seq<int>
    decreases active.len(),
{
    if active.len() == 0 {
        Seq::empty()
    } else {
        let before = active_indices(active.drop_last());
        if active.last() {
            before.push(active.len() - 1)
        } else {
            before
        }
    }
}

/// The positions, in order, of the active aids among those whose activity
/// flags are given: the beacons that a lighthouse scan lets emit.
pub fn active_positions(active: &[bool]) -> (r: Vec<usize>)
    ensures
        r@.map_values(|i: usize| i as int) == active_indices(active@),
{
    let mut out: Vec<usize> = Vec::new();
    let n = active.len();
    for i in 0..n
        invariant
            n == active@.len(),
            out@.map_values(|i: usize| i as int) == active_indices(active@.take(i as int)),
    {
        assert(active@.take(i + 1).drop_last() =~= active@.take(i as int));
        assert(active@.take(i + 1).last() == active@[i as int]);
        if active[i] {
            out.push(i);
            assert(out@.map_values(|i: usize| i as int) =~= active_indices(
                active@.take(i as int),
            ).push(i as int));
        }
    }
    assert(active@.take(n as int) =~= active@);
    out
}

/// The message that a beacon named `name` emits: `Beacon <name> pointing
/// <direction>`.
pub open spec fn beacon_message_view(name: Seq<char>, direction: Ternary) -> Seq<char> {
    "Beacon "@ + name + " pointing "@ + direction.name_view()
}

/// The message that a beacon named `name` emits: `Beacon <name> pointing
/// <direction>`.
pub fn beacon_message(name: &str, direction: Ternary) -> (r: String)
    ensures
        r@ == beacon_message_view(name@, direction),
{
    let mut m = String::from_str("Beacon ");
    m.append(name);
    m.append(" pointing ");
    m.append(direction.name());
    m
}

/// Every text holds the empty text, and every text holds itself: a lens with
/// an empty focus area keeps every signal, and one focused on a source's full
/// name keeps that source's signals.
pub proof fn lemma_focus_basics(text: Seq<char>)
    ensures
        holds_text(text, Seq::empty()),
        holds_text(text, text),
{
    let empty = Seq::<char>::empty();
    assert(text.subrange(0, 0int + empty.len()) =~= empty);
    assert(text.subrange(0, 0int + text.len()) =~= text);
}


/// The focus positions are increasing positions of the texts, and a position
/// is among them exactly when its source or its message holds the focus area.
pub proof fn lemma_focus_positions_exact(focus_area: Seq<char>, texts: Seq<(Seq<char>, Seq<char>)>)
    ensures
        forall|j: int|
            0 <= j < focus_positions(focus_area, texts).len() ==> 0 <= #[trigger] focus_positions(
                focus_area,
                texts,
            )[j] < texts.len(),
        forall|j: int, k: int|
            0 <= j < k < focus_positions(focus_area, texts).len() ==> #[trigger] focus_positions(
                focus_area,
                texts,
            )[j] < #[trigger] focus_positions(focus_area, texts)[k],
        forall|i: int|
            0 <= i < texts.len() ==> (#[trigger] focus_positions(focus_area, texts).contains(i) <==> (
            holds_text(texts[i].0, focus_area) || holds_text(texts[i].1, focus_area))),
    decreases texts.len(),
{
    if texts.len() > 0 {
        let rest = texts.drop_last();
        lemma_focus_positions_exact(focus_area, rest);
        let before = focus_positions(focus_area, rest);
        let all = focus_positions(focus_area, texts);
        assert forall|i: int| 0 <= i < texts.len() implies (#[trigger] all.contains(i) <==> (
        holds_text(texts[i].0, focus_area) || holds_text(texts[i].1, focus_area))) by {
            if i < texts.len() - 1 {
                assert(rest[i] == texts[i]);
                if before.contains(i) {
                    let j = choose|j: int| 0 <= j < before.len() && before[j] == i;
                    assert(all[j] == i);
                }
                if all.contains(i) {
                    let j = choose|j: int| 0 <= j < all.len() && all[j] == i;
                    if j < before.len() {
                        assert(before[j] == i);
                    }
                }
            } else {
                if all.contains(i) {
                    let j = choose|j: int| 0 <= j < all.len() && all[j] == i;
                    if j < before.len() {
                        assert(before[j] < texts.len() - 1);
                    }
                }
                if holds_text(texts[i].0, focus_area) || holds_text(texts[i].1, focus_area) {
                    assert(all[all.len() - 1] == i);
                }
            }
        }
    }
}

/// The active positions are increasing positions of the flags, and a
/// position is among them exactly when its flag is set: every active aid, at
/// any position, is kept, and no inactive one.
pub proof fn lemma_active_indices_exact(active: Seq<bool>)
    ensures
        forall|j: int|
            0 <= j < active_indices(active).len() ==> 0 <= #[trigger] active_indices(active)[j]
                < active.len(),
        forall|j: int, k: int|
            0 <= j < k < active_indices(active).len() ==> #[trigger] active_indices(active)[j]
                < #[trigger] active_indices(active)[k],
        forall|i: int| 0 <= i < active.len() ==> (#[trigger] active_indices(active).contains(i) <==> active[i]),
    decreases active.len(),
{
    if active.len() > 0 {
        let rest = active.drop_last();
        lemma_active_indices_exact(rest);
        let before = active_indices(rest);
        let all = active_indices(active);
        assert forall|i: int| 0 <= i < active.len() implies (#[trigger] all.contains(i) <==> active[i]) by {
            if i < active.len() - 1 {
                assert(rest[i] == active[i]);
                if before.contains(i) {
                    let j = choose|j: int| 0 <= j < before.len() && before[j] == i;
                    assert(all[j] == i);
                }
                if all.contains(i) {
                    let j = choose|j: int| 0 <= j < all.len() && all[j] == i;
                    if j < before.len() {
                        assert(before[j] == i);
                    }
                }
            } else {
                if all.contains(i) {
                    let j = choose|j: int| 0 <= j < all.len() && all[j] == i;
                    if j < before.len() {
                        assert(before[j] < active.len() - 1);
                    }
                }
                if active[i] {
                    assert(all[all.len() - 1] == i);
                }
            }
        }
    }
}

} // verus!
