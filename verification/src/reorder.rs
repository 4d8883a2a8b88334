//! Moving an item of a list one place up or down, as the editors' "move up" and
//! "move down" buttons do.
use vstd::prelude::*;

verus! {

/// `s` with the items at `i` and `j` exchanged.
pub open spec fn swapped<A>(s: Seq<A>, i: int, j: int) -> Seq<A> {
    s.update(i, s[j]).update(j, s[i])
}

/// `s` with the item at `i` moved one place towards the front, where there is such
/// an item and a place before it; otherwise `s`.
pub open spec fn moved_up<A>(s: Seq<A>, i: int) -> Seq<A> {
    if 0 < i < s.len() {
        swapped(s, i, i - 1)
    } else {
        s
    }
}

/// `s` with the item at `i` moved one place towards the back, where there is such an
/// item and a place after it; otherwise `s`.
pub open spec fn moved_down<A>(s: Seq<A>, i: int) -> Seq<A> {
    if 0 <= i && i + 1 < s.len() {
        swapped(s, i, i + 1)
    } else {
        s
    }
}

/// `s` without the item at `i`, where there is one; otherwise `s`.
pub open spec fn removed<A>(s: Seq<A>, i: int) -> Seq<A> {
    if 0 <= i < s.len() {
        s.remove(i)
    } else {
        s
    }
}

/// Moves the item at `index` one place up; nothing happens where it is first or there is
/// no such item.
pub fn move_up_in<A>(v: &mut Vec<A>, index: usize)
    ensures
        final(v)@ == moved_up(old(v)@, index as int),
{
    if index > 0 && index < v.len() {
        let x = v.remove(index);
        v.insert(index - 1, x);
        assert(v@ =~= moved_up(old(v)@, index as int));
    }
}

/// Moves the item at `index` one place down; nothing happens where it is last or there
/// is no such item.
pub fn move_down_in<A>(v: &mut Vec<A>, index: usize)
    ensures
        final(v)@ == moved_down(old(v)@, index as int),
{
    if index < v.len() && index + 1 < v.len() {
        let x = v.remove(index);
        v.insert(index + 1, x);
        assert(v@ =~= moved_down(old(v)@, index as int));
    }
}

/// Removes the item at `index`; nothing happens where there is no such item.
pub fn remove_in<A>(v: &mut Vec<A>, index: usize)
    ensures
        final(v)@ == removed(old(v)@, index as int),
{
    if index < v.len() {
        v.remove(index);
    }
}

/// Moving an item up and then moving it back down gives the list back.
pub proof fn lemma_move_up_then_down<A>(s: Seq<A>, i: int)
    requires
        0 < i < s.len(),
    ensures
        moved_down(moved_up(s, i), i - 1) == s,
{
    assert(moved_down(moved_up(s, i), i - 1) =~= s);
}

/// Moving an item down and then moving it back up gives the list back.
pub proof fn lemma_move_down_then_up<A>(s: Seq<A>, i: int)
    requires
        0 <= i && i + 1 < s.len(),
    ensures
        moved_up(moved_down(s, i), i + 1) == s,
{
    assert(moved_up(moved_down(s, i), i + 1) =~= s);
}

/// Moving keeps every item: the list is a reordering of the one before, of the same
/// length.
pub proof fn lemma_moves_keep_items<A>(s: Seq<A>, i: int)
    ensures
        moved_up(s, i).len() == s.len(),
        moved_down(s, i).len() == s.len(),
        moved_up(s, i).to_multiset() == s.to_multiset(),
        moved_down(s, i).to_multiset() == s.to_multiset(),
{
    broadcast use vstd::seq_lib::group_to_multiset_ensures;
    if 0 < i < s.len() {
        lemma_swap_multiset(s, i, i - 1);
    }
    if 0 <= i && i + 1 < s.len() {
        lemma_swap_multiset(s, i, i + 1);
    }
}

proof fn lemma_swap_multiset<A>(s: Seq<A>, i: int, j: int)
    requires
        0 <= i < s.len(),
        0 <= j < s.len(),
    ensures
        swapped(s, i, j).to_multiset() == s.to_multiset(),
{
    broadcast use vstd::seq_lib::group_to_multiset_ensures;
    let t = s.update(i, s[j]);
    assert(t.to_multiset() == s.to_multiset().remove(s[i]).insert(s[j]));
    assert(t.update(j, s[i]).to_multiset() == t.to_multiset().remove(t[j]).insert(s[i]));
    if i == j {
        assert(swapped(s, i, j) =~= s);
    } else {
        assert(t[j] == s[j]);
        assert(s.to_multiset().remove(s[i]).insert(s[j]).remove(s[j]).insert(s[i]) =~= s.to_multiset());
    }
}

} // verus!
