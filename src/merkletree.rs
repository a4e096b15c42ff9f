//! Binary Merkle tree whose leaves hold a stand-alone value.
use vstd::prelude::*;

verus! {

/// Binary tree where each node carries its hash and leaves hold a value.
#[verifier::reject_recursive_types(T)]
pub enum Tree<T> {
    Empty { hash: Vec<u8> },
    Leaf { hash: Vec<u8>, value: T },
    Node { hash: Vec<u8>, left: Box<Tree<T>>, right: Box<Tree<T>> },
}

impl<T> Tree<T> {
    /// The hash stored at the root.
    pub open spec fn spec_hash(&self) -> Seq<u8> {
        match self {
            Tree::Empty { hash } => hash@,
            Tree::Leaf { hash, .. } => hash@,
            Tree::Node { hash, .. } => hash@,
        }
    }

    /// An empty tree with the given hash.
    pub fn empty(hash: Vec<u8>) -> (r: Self)
        ensures
            r is Empty,
            r.spec_hash() == hash@,
    {
        Tree::Empty { hash }
    }

    /// A single leaf holding `value`.
    pub fn new(hash: Vec<u8>, value: T) -> (r: Self)
        ensures
            r matches Tree::Leaf { value: v, .. } && v == value,
            r.spec_hash() == hash@,
    {
        Tree::Leaf { hash, value }
    }

    /// The hash stored at the root.
    pub fn hash(&self) -> (r: &Vec<u8>)
        ensures
            r@ == self.spec_hash(),
    {
        match self {
            Tree::Empty { hash } => hash,
            Tree::Leaf { hash, .. } => hash,
            Tree::Node { hash, .. } => hash,
        }
    }
}

/// The value of the leftmost leaf that the walk down the left edge of `t` reaches,
/// or `None` when that walk ends at an empty tree.
pub open spec fn leftmost<T>(t: Tree<T>) -> Option<T>
    decreases t,
{
    match t {
        Tree::Empty { .. } => None,
        Tree::Leaf { value, .. } => Some(value),
        Tree::Node { left, .. } => leftmost(*left),
    }
}

/// The right children met on the walk down the left edge of `t`, top first.
pub open spec fn right_spine<T>(t: Tree<T>) -> Seq<Tree<T>>
    decreases t,
{
    match t {
        Tree::Node { left, right, .. } => seq![*right] + right_spine(*left),
        _ => Seq::empty(),
    }
}

/// An iterator over the leaves of a `Tree`: the current leaf value and the right
/// subtrees still to visit, the next one last.
#[verifier::reject_recursive_types(T)]
pub struct LeavesIntoIterator<T> {
    pub current_value: Option<T>,
    pub right_nodes: Vec<Tree<T>>,
}

impl<T> LeavesIntoIterator<T> {
    /// An iterator positioned at the leftmost leaf of `root`.
    pub fn new(root: Tree<T>) -> (r: Self)
        ensures
            r.current_value == leftmost(root),
            r.right_nodes@ == right_spine(root),
    {
        let mut iter = LeavesIntoIterator { current_value: None, right_nodes: Vec::new() };
        iter.add_left(root);
        assert(iter.right_nodes@ =~= right_spine(root));
        iter
    }

    /// Walks down the left edge of `tree`, stacking the right children met, and
    /// stops at a leaf (its value becomes current) or an empty tree (nothing is).
    pub fn add_left(&mut self, tree: Tree<T>)
        ensures
            final(self).current_value == leftmost(tree),
            final(self).right_nodes@ == old(self).right_nodes@ + right_spine(tree),
    {
        let ghost whole = tree;
        let mut tree = tree;
        loop
            invariant
                leftmost(tree) == leftmost(whole),
                old(self).right_nodes@ + right_spine(whole) == self.right_nodes@ + right_spine(
                    tree,
                ),
            ensures
                self.current_value == leftmost(whole),
                self.right_nodes@ == old(self).right_nodes@ + right_spine(whole),
            decreases tree,
        {
            match tree {
                Tree::Empty { .. } => {
                    self.current_value = None;
                    assert(self.right_nodes@ + right_spine(tree) =~= self.right_nodes@);
                    break ;
                },
                Tree::Node { left, right, .. } => {
                    let ghost before = self.right_nodes@;
                    self.right_nodes.push(*right);
                    assert(before + right_spine(tree) =~= self.right_nodes@ + right_spine(*left));
                    tree = *left;
                },
                Tree::Leaf { value, .. } => {
                    assert(self.right_nodes@ + right_spine(tree) =~= self.right_nodes@);
                    self.current_value = Some(value);
                    break ;
                },
            }
        }
    }

    /// Hands out the current value and moves to the leftmost leaf of the most
    /// recently stacked right subtree, if any.
    pub fn next(&mut self) -> (r: Option<T>)
        ensures
            r == old(self).current_value,
            old(self).right_nodes@.len() == 0 ==> final(self).current_value is None
                && final(self).right_nodes@.len() == 0,
            old(self).right_nodes@.len() > 0 ==> final(self).current_value == leftmost(
                old(self).right_nodes@.last(),
            ) && final(self).right_nodes@ == old(self).right_nodes@.drop_last() + right_spine(
                old(self).right_nodes@.last(),
            ),
    {
        let result = self.current_value.take();
        if let Some(rest) = self.right_nodes.pop() {
            self.add_left(rest);
        }
        result
    }
}

impl<T> Tree<T> {
    /// An iterator over the leaves of the tree, which it consumes.
    pub fn into_iter(self) -> (r: LeavesIntoIterator<T>)
        ensures
            r.current_value == leftmost(self),
            r.right_nodes@ == right_spine(self),
    {
        LeavesIntoIterator::new(self)
    }
}

/// The trees that a stack of borrowed trees points to.
pub open spec fn deref_all<'a, T>(s: Seq<&'a Tree<T>>) -> Seq<Tree<T>> {
    s.map_values(|t: &'a Tree<T>| *t)
}

/// `a` points to the value that `b` holds, or both are `None`.
pub open spec fn points_to<'a, T>(a: Option<&'a T>, b: Option<T>) -> bool {
    match (a, b) {
        (Some(x), Some(y)) => *x == y,
        (None, None) => true,
        _ => false,
    }
}

/// A borrowing iterator over the leaves of a `Tree`: the current leaf value and
/// the right subtrees still to visit, the next one last.
#[verifier::reject_recursive_types(T)]
pub struct LeavesIterator<'a, T> {
    pub current_value: Option<&'a T>,
    pub right_nodes: Vec<&'a Tree<T>>,
}

impl<'a, T> LeavesIterator<'a, T> {
    /// An iterator positioned at the leftmost leaf of `root`.
    pub fn new(root: &'a Tree<T>) -> (r: Self)
        ensures
            points_to(r.current_value, leftmost(*root)),
            deref_all(r.right_nodes@) == right_spine(*root),
    {
        let mut iter = LeavesIterator { current_value: None, right_nodes: Vec::new() };
        iter.add_left(root);
        assert(deref_all(iter.right_nodes@) =~= right_spine(*root));
        iter
    }

    /// Walks down the left edge of `tree`, stacking the right children met, and
    /// stops at a leaf (its value becomes current) or an empty tree (nothing is).
    pub fn add_left(&mut self, tree: &'a Tree<T>)
        ensures
            points_to(final(self).current_value, leftmost(*tree)),
            deref_all(final(self).right_nodes@) == deref_all(old(self).right_nodes@) + right_spine(
                *tree,
            ),
    {
        let mut tree = tree;
        let ghost whole = *tree;
        loop
            invariant
                leftmost(*tree) == leftmost(whole),
                deref_all(old(self).right_nodes@) + right_spine(whole) == deref_all(
                    self.right_nodes@,
                ) + right_spine(*tree),
            ensures
                points_to(self.current_value, leftmost(whole)),
                deref_all(self.right_nodes@) == deref_all(old(self).right_nodes@) + right_spine(
                    whole,
                ),
            decreases *tree,
        {
            match tree {
                Tree::Empty { .. } => {
                    self.current_value = None;
                    assert(deref_all(self.right_nodes@) + right_spine(*tree) =~= deref_all(
                        self.right_nodes@,
                    ));
                    break ;
                },
                Tree::Node { left, right, .. } => {
                    let ghost before = deref_all(self.right_nodes@);
                    self.right_nodes.push(right);
                    assert(deref_all(self.right_nodes@) =~= before.push(**right));
                    assert(before + right_spine(*tree) =~= deref_all(self.right_nodes@)
                        + right_spine(**left));
                    tree = left;
                },
                Tree::Leaf { value, .. } => {
                    assert(deref_all(self.right_nodes@) + right_spine(*tree) =~= deref_all(
                        self.right_nodes@,
                    ));
                    self.current_value = Some(value);
                    break ;
                },
            }
        }
    }

    /// Hands out the current value and moves to the leftmost leaf of the most
    /// recently stacked right subtree, if any.
    pub fn next(&mut self) -> (r: Option<&'a T>)
        ensures
            r == old(self).current_value,
            old(self).right_nodes@.len() == 0 ==> final(self).current_value is None
                && final(self).right_nodes@.len() == 0,
            old(self).right_nodes@.len() > 0 ==> points_to(
                final(self).current_value,
                leftmost(*old(self).right_nodes@.last()),
            ) && deref_all(final(self).right_nodes@) == deref_all(
                old(self).right_nodes@.drop_last(),
            ) + right_spine(*old(self).right_nodes@.last()),
    {
        let result = self.current_value.take();
        if let Some(rest) = self.right_nodes.pop() {
            self.add_left(rest);
        }
        result
    }
}

impl<T> Tree<T> {
    /// A borrowing iterator over the leaves of the tree.
    pub fn iter<'a>(&'a self) -> (r: LeavesIterator<'a, T>)
        ensures
            points_to(r.current_value, leftmost(*self)),
            deref_all(r.right_nodes@) == right_spine(*self),
    {
        LeavesIterator::new(self)
    }
}

} // verus!
