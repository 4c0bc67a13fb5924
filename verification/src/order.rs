//! The order of strings, character by character, and of pairs of strings.

use crate::text::chars_of;
use vstd::prelude::*;

verus! {

/// `a` comes before `b`: at the first place where they differ `a` has the smaller
/// character, or `a` ends there and `b` goes on.
pub open spec fn seq_less(a: Seq<char>, b: Seq<char>) -> bool
    decreases a.len(),
{
    if b.len() == 0 {
        false
    } else if a.len() == 0 {
        true
    } else if a[0] != b[0] {
        a[0] < b[0]
    } else {
        seq_less(a.drop_first(), b.drop_first())
    }
}

/// No string comes before itself.
pub proof fn lemma_less_irreflexive(a: Seq<char>)
    ensures
        !seq_less(a, a),
    decreases a.len(),
{
    if a.len() > 0 {
        lemma_less_irreflexive(a.drop_first());
    }
}

/// What comes before a string comes before everything behind that string.
pub proof fn lemma_less_transitive(a: Seq<char>, b: Seq<char>, c: Seq<char>)
    requires
        seq_less(a, b),
        seq_less(b, c),
    ensures
        seq_less(a, c),
    decreases a.len(),
{
    if a.len() > 0 && a[0] == b[0] && b[0] == c[0] {
        lemma_less_transitive(a.drop_first(), b.drop_first(), c.drop_first());
    }
}

/// Of two strings one comes before the other, or they are the same.
pub proof fn lemma_less_total(a: Seq<char>, b: Seq<char>)
    ensures
        seq_less(a, b) || a == b || seq_less(b, a),
    decreases a.len(),
{
    if a.len() == 0 || b.len() == 0 {
        if a.len() == 0 && b.len() == 0 {
            assert(a =~= b);
        }
    } else if a[0] == b[0] {
        lemma_less_total(a.drop_first(), b.drop_first());
        if a.drop_first() == b.drop_first() {
            assert(a =~= seq![a[0]] + a.drop_first());
            assert(b =~= seq![b[0]] + b.drop_first());
        }
    }
}

/// Of two strings only one comes before the other, and then they differ.
pub proof fn lemma_less_asymmetric(a: Seq<char>, b: Seq<char>)
    requires
        seq_less(a, b),
    ensures
        !seq_less(b, a),
        a != b,
{
    lemma_less_irreflexive(a);
    if seq_less(b, a) {
        lemma_less_transitive(a, b, a);
    }
}

/// Whether `a` comes before `b`.
pub fn chars_less(a: &[char], b: &[char]) -> (less: bool)
    ensures
        less == seq_less(a@, b@),
{
    let mut i: usize = 0;
    assert(a@.skip(0) == a@);
    assert(b@.skip(0) == b@);
    while i < a.len() && i < b.len()
        invariant
            i <= a.len(),
            i <= b.len(),
            seq_less(a@, b@) == seq_less(a@.skip(i as int), b@.skip(i as int)),
        decreases a.len() - i,
    {
        if a[i] != b[i] {
            return a[i] < b[i];
        }
        assert(a@.skip(i as int).drop_first() == a@.skip(i + 1));
        assert(b@.skip(i as int).drop_first() == b@.skip(i + 1));
        i += 1;
    }
    i < b.len()
}

/// Whether the string `a` comes before the string `b`.
pub fn str_less(a: &str, b: &str) -> (less: bool)
    ensures
        less == seq_less(a@, b@),
{
    let left = chars_of(a);
    let right = chars_of(b);
    chars_less(left.as_slice(), right.as_slice())
}

/// A position in the event log: the time and the id of an event.
pub type Position = (Seq<char>, Seq<char>);

/// `a` comes before `b`: by time, and by id where the times are the same.
pub open spec fn position_less(a: Position, b: Position) -> bool {
    seq_less(a.0, b.0) || (a.0 == b.0 && seq_less(a.1, b.1))
}

/// No position comes before itself.
pub proof fn lemma_position_irreflexive(a: Position)
    ensures
        !position_less(a, a),
{
    lemma_less_irreflexive(a.0);
    lemma_less_irreflexive(a.1);
}

/// What comes before a position comes before everything behind that position.
pub proof fn lemma_position_transitive(a: Position, b: Position, c: Position)
    requires
        position_less(a, b),
        position_less(b, c),
    ensures
        position_less(a, c),
{
    if seq_less(a.0, b.0) && seq_less(b.0, c.0) {
        lemma_less_transitive(a.0, b.0, c.0);
    }
    lemma_less_irreflexive(a.0);
    lemma_less_irreflexive(b.0);
    if a.0 == b.0 && b.0 == c.0 {
        lemma_less_transitive(a.1, b.1, c.1);
    }
}

/// Of two positions one comes before the other, or they are the same.
pub proof fn lemma_position_total(a: Position, b: Position)
    ensures
        position_less(a, b) || a == b || position_less(b, a),
{
    lemma_less_total(a.0, b.0);
    lemma_less_total(a.1, b.1);
}

/// Of two positions only one comes before the other, and then they differ.
pub proof fn lemma_position_asymmetric(a: Position, b: Position)
    requires
        position_less(a, b),
    ensures
        !position_less(b, a),
        a != b,
{
    lemma_position_irreflexive(a);
    if position_less(b, a) {
        lemma_position_transitive(a, b, a);
    }
}

/// Whether the position `(a_time, a_id)` comes before `(b_time, b_id)`.
pub fn position_before(a_time: &str, a_id: &str, b_time: &str, b_id: &str) -> (less: bool)
    ensures
        less == position_less((a_time@, a_id@), (b_time@, b_id@)),
{
    if str_less(a_time, b_time) {
        return true;
    }
    if str_less(b_time, a_time) {
        proof {
            lemma_less_asymmetric(b_time@, a_time@);
        }
        return false;
    }
    proof {
        lemma_less_total(a_time@, b_time@);
    }
    str_less(a_id, b_id)
}

} // verus!
