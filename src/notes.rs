use vstd::prelude::*;

verus! {

/// A single editable text item.
pub struct Stickynote {
    pub text: String,
}

impl Stickynote {
    pub fn new(text: String) -> (r: Stickynote)
        ensures
            r.text@ == text@,
    {
        Stickynote { text }
    }
}

/// A vertical column of notes, listed top to bottom.
pub struct Stack {
    pub notes: Vec<Stickynote>,
}

impl Stack {
    pub fn new(notes: Vec<Stickynote>) -> (r: Stack)
        ensures
            r.notes@ == notes@,
    {
        Stack { notes }
    }
}

/// Sum of the note counts of the given stacks.
pub open spec fn total_of(stacks: Seq<Stack>) -> int
    decreases stacks.len(),
{
    if stacks.len() == 0 {
        0
    } else {
        total_of(stacks.drop_last()) + stacks.last().notes@.len()
    }
}

/// The total of two joined runs of stacks is the sum of their totals.
pub proof fn lemma_total_concat(a: Seq<Stack>, b: Seq<Stack>)
    ensures
        total_of(a + b) == total_of(a) + total_of(b),
    decreases b.len(),
{
    if b.len() == 0 {
        assert(a + b =~= a);
    } else {
        lemma_total_concat(a, b.drop_last());
        assert((a + b).drop_last() =~= a + b.drop_last());
    }
}

/// A total is never negative.
pub proof fn lemma_total_nonneg(s: Seq<Stack>)
    ensures
        total_of(s) >= 0,
    decreases s.len(),
{
    if s.len() > 0 {
        lemma_total_nonneg(s.drop_last());
    }
}

/// The total of one stack is its note count.
pub proof fn lemma_total_single(x: Stack)
    ensures
        total_of(seq![x]) == x.notes@.len(),
{
    assert(seq![x].drop_last() =~= Seq::<Stack>::empty());
    assert(total_of(Seq::<Stack>::empty()) == 0);
    assert(seq![x].last() == x);
}

/// Splits the total at position `i`: the stacks before, the stack at `i`,
/// and the stacks after.
pub proof fn lemma_total_split(s: Seq<Stack>, i: int)
    requires
        0 <= i < s.len(),
    ensures
        total_of(s) == total_of(s.take(i)) + s[i].notes@.len() + total_of(s.skip(i + 1)),
{
    assert(s =~= s.take(i) + seq![s[i]] + s.skip(i + 1));
    lemma_total_concat(s.take(i), seq![s[i]]);
    lemma_total_concat(s.take(i) + seq![s[i]], s.skip(i + 1));
    lemma_total_single(s[i]);
}

/// Replacing the stack at `i` changes the total by the difference in notes.
pub proof fn lemma_total_update(s: Seq<Stack>, i: int, x: Stack)
    requires
        0 <= i < s.len(),
    ensures
        total_of(s.update(i, x)) == total_of(s) - s[i].notes@.len() + x.notes@.len(),
{
    lemma_total_split(s, i);
    lemma_total_split(s.update(i, x), i);
    assert(s.update(i, x).take(i) =~= s.take(i));
    assert(s.update(i, x).skip(i + 1) =~= s.skip(i + 1));
}

/// Removing the stack at `i` takes its notes off the total.
pub proof fn lemma_total_remove(s: Seq<Stack>, i: int)
    requires
        0 <= i < s.len(),
    ensures
        total_of(s.remove(i)) == total_of(s) - s[i].notes@.len(),
{
    lemma_total_split(s, i);
    assert(s.remove(i) =~= s.take(i) + s.skip(i + 1));
    lemma_total_concat(s.take(i), s.skip(i + 1));
}

/// Inserting a stack at `i` adds its notes to the total.
pub proof fn lemma_total_insert(s: Seq<Stack>, i: int, x: Stack)
    requires
        0 <= i <= s.len(),
    ensures
        total_of(s.insert(i, x)) == total_of(s) + x.notes@.len(),
{
    assert(s =~= s.take(i) + s.skip(i));
    assert(s.insert(i, x) =~= s.take(i) + seq![x] + s.skip(i));
    lemma_total_concat(s.take(i), s.skip(i));
    lemma_total_concat(s.take(i), seq![x]);
    lemma_total_concat(s.take(i) + seq![x], s.skip(i));
    lemma_total_single(x);
}

} // verus!
