//! An ordered tree: a value and its children.
use vstd::prelude::*;

verus! {

pub struct TreeNode<T> {
    pub value: T,
    pub children: Vec<TreeNode<T>>,
}

pub broadcast proof fn lemma_push_drop_last<T>(s: Seq<T>, x: T)
    ensures
        #[trigger] s.push(x).drop_last() == s,
{
    assert(s.push(x).drop_last() =~= s);
}

pub broadcast proof fn lemma_push_push_prefix<T>(s: Seq<T>, x: T, y: T)
    ensures
        #[trigger] s.push(x).push(y).subrange(0, s.len() as int) == s,
{
    assert(s.push(x).push(y).subrange(0, s.len() as int) =~= s);
}

pub broadcast group group_push {
    lemma_push_drop_last,
    lemma_push_push_prefix,
}

} // verus!
