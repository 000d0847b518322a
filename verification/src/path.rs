//! Hierarchical namespace addresses: an immutable, shareable chain of named
//! nodes, linked backward from leaf to root. Many paths can share a common
//! prefix by reference. A path is modeled as the sequence of its node names
//! from the root to the leaf. Paths order first by chain length, then
//! lexicographically node-by-node from the root; two paths are equal exactly
//! when their name sequences are equal.

use vstd::prelude::*;
use vstd::string::StrSliceExecFns;
use vstd::string::StringExecFns;
use core::cmp::Ordering;
use std::rc::Rc;

verus! {

/// The node of the path: a package name at the current hierarchy level and
/// an optional link to the previous (parent) node.
#[derive(PartialEq, Eq)]
pub struct Path {
    /// Package name at current hierarchy level.
    pub name: String,
    /// Previous path node if any.
    pub prev: Option<Rc<Path>>,
}

/// Path nodes iterator, from the leaf back to the root.
pub struct PathIter {
    /// Next node to hand out, if any.
    pub cur: Option<Rc<Path>>,
}

/// Bidirectional path iterator over the whole chain, root first.
pub struct BiPathIter {
    /// Whole path in an array, from the root to the leaf.
    pub path: Vec<Rc<Path>>,
    /// Front position of the iterator.
    pub front: usize,
    /// Back position of the iterator: 0 means the last node, 1 the one
    /// before the last, and so on.
    pub back: usize,
}

/// The names of a chain's nodes, from the root to the given node.
pub open spec fn path_names(p: Path) -> Seq<Seq<char>>
    decreases p,
{
    match p.prev {
        Option::None => seq![p.name@],
        Option::Some(q) => path_names(*q).push(p.name@),
    }
}

impl View for Path {
    type V = Seq<Seq<char>>;

    /// The names of the chain's nodes, from the root to this node.
    open spec fn view(&self) -> Seq<Seq<char>> {
        path_names(*self)
    }
}

/// Lexicographic order on character sequences, by code point.
pub open spec fn lex_cmp_chars(a: Seq<char>, b: Seq<char>) -> Ordering
    decreases a.len(), b.len(),
{
    if a.len() == 0 && b.len() == 0 {
        Ordering::Equal
    } else if a.len() == 0 {
        Ordering::Less
    } else if b.len() == 0 {
        Ordering::Greater
    } else if (a[0] as u32) < (b[0] as u32) {
        Ordering::Less
    } else if (a[0] as u32) > (b[0] as u32) {
        Ordering::Greater
    } else {
        lex_cmp_chars(a.skip(1), b.skip(1))
    }
}

/// Order on two equally long name sequences: the first inequality walking
/// from the root (the front) decides.
pub open spec fn names_cmp(a: Seq<Seq<char>>, b: Seq<Seq<char>>) -> Ordering
    decreases a.len(),
{
    if a.len() == 0 || b.len() == 0 {
        Ordering::Equal
    } else {
        let c = names_cmp(a.drop_last(), b.drop_last());
        if c == Ordering::Equal {
            lex_cmp_chars(a.last(), b.last())
        } else {
            c
        }
    }
}

/// Order on paths: shorter chains sort before longer ones; equally long
/// chains compare node-by-node from the root.
pub open spec fn path_order(a: Seq<Seq<char>>, b: Seq<Seq<char>>) -> Ordering {
    if a.len() < b.len() {
        Ordering::Less
    } else if a.len() > b.len() {
        Ordering::Greater
    } else {
        names_cmp(a, b)
    }
}

/// Root-to-leaf node names joined by a delimiter, with no delimiter before
/// the first nor after the last name.
pub open spec fn join_names(names: Seq<Seq<char>>, delim: Seq<char>) -> Seq<char>
    decreases names.len(),
{
    if names.len() == 0 {
        Seq::empty()
    } else if names.len() == 1 {
        names[0]
    } else {
        join_names(names.drop_last(), delim) + delim + names.last()
    }
}

/// A chain always carries at least its own node's name.
pub proof fn lemma_path_names_nonempty(p: &Path)
    ensures
        path_names(*p).len() >= 1,
    decreases *p,
{
    match &p.prev {
        Option::None => {},
        Option::Some(q) => lemma_path_names_nonempty(&**q),
    }
}

/// Relies on Rc::clone: the result is another handle to the same allocation,
/// so it carries the same value.
#[verifier::external_body]
pub(crate) fn rc_clone<T>(rc: &Rc<T>) -> (res: Rc<T>)
    ensures
        res == rc,
{
    rc.clone()
}

/// Lexicographic comparison of two strings, character by character.
pub(crate) fn compare_str(a: &str, b: &str) -> (r: Ordering)
    ensures
        r == lex_cmp_chars(a@, b@),
{
    let alen = a.unicode_len();
    let blen = b.unicode_len();
    let mut i: usize = 0;
    proof {
        assert(a@.skip(0) =~= a@);
        assert(b@.skip(0) =~= b@);
    }
    loop
        invariant
            i <= alen,
            i <= blen,
            alen == a@.len(),
            blen == b@.len(),
            lex_cmp_chars(a@, b@) == lex_cmp_chars(a@.skip(i as int), b@.skip(i as int)),
        decreases alen - i,
    {
        if i == alen && i == blen {
            proof {
                assert(a@.skip(i as int) =~= Seq::<char>::empty());
                assert(b@.skip(i as int) =~= Seq::<char>::empty());
            }
            return Ordering::Equal;
        }
        if i == alen {
            proof {
                assert(a@.skip(i as int) =~= Seq::<char>::empty());
            }
            return Ordering::Less;
        }
        if i == blen {
            proof {
                assert(b@.skip(i as int) =~= Seq::<char>::empty());
            }
            return Ordering::Greater;
        }
        let ca = a.get_char(i);
        let cb = b.get_char(i);
        if (ca as u32) < (cb as u32) {
            return Ordering::Less;
        }
        if (ca as u32) > (cb as u32) {
            return Ordering::Greater;
        }
        proof {
            assert(a@.skip(i as int)[0] == a@[i as int]);
            assert(b@.skip(i as int)[0] == b@[i as int]);
            assert(a@.skip(i as int).skip(1) =~= a@.skip(i + 1));
            assert(b@.skip(i as int).skip(1) =~= b@.skip(i + 1));
        }
        i = i + 1;
    }
}

/// Whether two chains carry the same name sequence.
fn paths_equal(a: &Path, b: &Path) -> (r: bool)
    ensures
        r == (a@ == b@),
    decreases *a,
{
    let names_match = a.name.eq(&b.name);
    match (&a.prev, &b.prev) {
        (Option::None, Option::None) => {
            proof {
                if a.name@ == b.name@ {
                    assert(a@ =~= b@);
                } else {
                    assert(a@[0] != b@[0]);
                }
            }
            names_match
        },
        (Option::Some(pa), Option::Some(pb)) => {
            if !names_match {
                proof {
                    assert(a@.last() != b@.last());
                }
                return false;
            }
            let r = paths_equal(pa, pb);
            proof {
                if pa@ == pb@ && a.name@ == b.name@ {
                    assert(a@ =~= b@);
                }
                if a@ == b@ {
                    assert(a@.drop_last() =~= pa@);
                    assert(b@.drop_last() =~= pb@);
                }
            }
            r
        },
        (Option::None, Option::Some(qb)) => {
            proof {
                lemma_path_names_nonempty(&**qb);
                assert(b@.len() >= 2);
                assert(a@.len() == 1);
            }
            false
        },
        (Option::Some(qa), Option::None) => {
            proof {
                lemma_path_names_nonempty(&**qa);
                assert(a@.len() >= 2);
                assert(b@.len() == 1);
            }
            false
        },
    }
}

/// Which of two chains is longer, without counting into a machine integer.
fn chain_len_cmp(a: &Path, b: &Path) -> (r: Ordering)
    ensures
        r == Ordering::Equal <==> a@.len() == b@.len(),
        r == Ordering::Less <==> a@.len() < b@.len(),
        r == Ordering::Greater <==> a@.len() > b@.len(),
    decreases *a,
{
    match (&a.prev, &b.prev) {
        (Option::None, Option::None) => Ordering::Equal,
        (Option::None, Option::Some(qb)) => {
            proof {
                lemma_path_names_nonempty(&**qb);
            }
            Ordering::Less
        },
        (Option::Some(qa), Option::None) => {
            proof {
                lemma_path_names_nonempty(&**qa);
            }
            Ordering::Greater
        },
        (Option::Some(pa), Option::Some(pb)) => {
            let r = chain_len_cmp(pa, pb);
            proof {
                assert(a@.len() == pa@.len() + 1);
                assert(b@.len() == pb@.len() + 1);
            }
            r
        },
    }
}

/// Compare two equally long chains node-by-node from the root.
fn names_compare(a: &Path, b: &Path) -> (r: Ordering)
    requires
        a@.len() == b@.len(),
    ensures
        r == names_cmp(a@, b@),
    decreases *a,
{
    match (&a.prev, &b.prev) {
        (Option::Some(pa), Option::Some(pb)) => {
            proof {
                assert(a@.len() == pa@.len() + 1);
                assert(b@.len() == pb@.len() + 1);
                assert(a@.drop_last() =~= pa@);
                assert(b@.drop_last() =~= pb@);
            }
            let c = names_compare(pa, pb);
            match c {
                Ordering::Equal => {
                    let r = compare_str(a.name.as_str(), b.name.as_str());
                    proof {
                        assert(a@.last() == a.name@);
                        assert(b@.last() == b.name@);
                    }
                    r
                },
                _ => c,
            }
        },
        (Option::None, Option::Some(qb)) => {
            proof {
                lemma_path_names_nonempty(&**qb);
                assert(a@.len() == 1 && b@.len() >= 2);
                // Unreachable under the equal-length precondition.
                assert(false);
            }
            compare_str(a.name.as_str(), b.name.as_str())
        },
        (Option::Some(qa), Option::None) => {
            proof {
                lemma_path_names_nonempty(&**qa);
                assert(b@.len() == 1 && a@.len() >= 2);
                // Unreachable under the equal-length precondition.
                assert(false);
            }
            compare_str(a.name.as_str(), b.name.as_str())
        },
        (Option::None, Option::None) => {
            proof {
                assert(a@.len() == 1 && b@.len() == 1);
                assert(a@.drop_last() =~= Seq::<Seq<char>>::empty());
                assert(b@.drop_last() =~= Seq::<Seq<char>>::empty());
                assert(names_cmp(a@.drop_last(), b@.drop_last()) == Ordering::Equal);
                assert(a@.last() == a.name@);
                assert(b@.last() == b.name@);
            }
            compare_str(a.name.as_str(), b.name.as_str())
        },
    }
}

impl Path {
    /// Generate new root node for given package name.
    pub fn new(name: String) -> (p: Self)
        ensures
            p@ == seq![name@],
    {
        Path { name, prev: None }
    }

    /// Create new node at the end of given path.
    pub fn new_in_path(name: String, prev: Rc<Path>) -> (p: Self)
        ensures
            p@ == prev@.push(name@),
    {
        Path { name, prev: Some(prev) }
    }

    /// The name of the node.
    pub fn name(&self) -> (r: &String)
        ensures
            r@ == self@.last(),
    {
        proof {
            assert(self@.last() == self.name@);
        }
        &self.name
    }

    /// A copy of this node that shares the rest of the chain by reference.
    pub fn duplicate(&self) -> (r: Path)
        ensures
            r@ == self@,
    {
        let prev = match &self.prev {
            Option::None => None,
            Option::Some(p) => Some(rc_clone(p)),
        };
        Path { name: self.name.clone(), prev }
    }

    /// Full path from the root node to this node, with the given delimiter
    /// string between adjacent names.
    pub fn full_path(&self, delim: &str) -> (r: String)
        ensures
            r@ == join_names(self@, delim@),
        decreases *self,
    {
        match &self.prev {
            Option::None => self.name.clone(),
            Option::Some(p) => {
                let mut s = p.full_path(delim);
                s.append(delim);
                s.append(self.name.as_str());
                proof {
                    assert(self@.drop_last() =~= p@);
                    assert(self@.last() == self.name@);
                }
                s
            },
        }
    }

    /// Whether this chain and the other carry the same name sequence.
    pub fn eq_path(&self, other: &Path) -> (r: bool)
        ensures
            r == (self@ == other@),
    {
        paths_equal(self, other)
    }

    /// Order against another path: shorter chains sort before longer ones;
    /// equally long chains compare node-by-node from the root.
    pub fn compare(&self, other: &Path) -> (r: Ordering)
        ensures
            r == path_order(self@, other@),
    {
        match chain_len_cmp(self, other) {
            Ordering::Less => Ordering::Less,
            Ordering::Greater => Ordering::Greater,
            Ordering::Equal => names_compare(self, other),
        }
    }

    /// Iterator over the chain's nodes, from this node back to the root.
    pub fn iter(&self) -> (it: PathIter)
        ensures
            it.remaining() == self@,
    {
        PathIter { cur: Some(Rc::new(self.duplicate())) }
    }

    /// Bi-directional iterator over the chain's nodes, root first.
    pub fn bi_iter(&self) -> (it: BiPathIter)
        ensures
            it.path@.len() == self@.len(),
            forall|i: int| 0 <= i < self@.len() ==> #[trigger] it.path@[i]@ == self@.take(i + 1),
            it.front == 0,
            it.back == 0,
    {
        let mut nodes: Vec<Rc<Path>> = Vec::new();
        let node = Rc::new(self.duplicate());
        collect_from_root(&node, &mut nodes);
        BiPathIter { path: nodes, front: 0, back: 0 }
    }
}

/// Push the chain's nodes onto `out` from the root to the given node.
fn collect_from_root(p: &Rc<Path>, out: &mut Vec<Rc<Path>>)
    ensures
        final(out)@.len() == old(out)@.len() + p@.len(),
        forall|i: int| 0 <= i < old(out)@.len() ==> #[trigger] final(out)@[i] == old(out)@[i],
        forall|i: int|
            old(out)@.len() <= i < final(out)@.len() ==> #[trigger] final(out)@[i]@ == p@.take(
                i - old(out)@.len() + 1,
            ),
    decreases **p,
{
    match &p.prev {
        Option::None => {
            proof {
                assert(p@.take(1) =~= p@);
            }
            out.push(rc_clone(p));
        },
        Option::Some(q) => {
            collect_from_root(q, out);
            proof {
                assert(p@.drop_last() =~= q@);
                assert(p@.take(p@.len() as int) =~= p@);
                assert(forall|i: int|
                    0 <= i < q@.len() ==> #[trigger] q@.take(i + 1) =~= p@.take(i + 1));
            }
            out.push(rc_clone(p));
        },
    }
}

impl PathIter {
    /// The chain still ahead of the iterator, root first.
    pub open spec fn remaining(&self) -> Seq<Seq<char>> {
        match self.cur {
            Option::None => Seq::empty(),
            Option::Some(p) => p@,
        }
    }

    /// The next node walking from the leaf toward the root.
    pub fn next(&mut self) -> (r: Option<Rc<Path>>)
        ensures
            old(self).remaining().len() == 0 ==> r is None && final(self).remaining().len() == 0,
            old(self).remaining().len() > 0 ==> {
                &&& r matches Some(node) && node@ == old(self).remaining()
                &&& final(self).remaining() == old(self).remaining().drop_last()
            },
    {
        match &self.cur {
            Option::None => None,
            Option::Some(p) => {
                let result = rc_clone(p);
                let next = match &p.prev {
                    Option::None => {
                        proof {
                            assert(p@.drop_last() =~= Seq::<Seq<char>>::empty());
                        }
                        None
                    },
                    Option::Some(q) => {
                        proof {
                            assert(p@.drop_last() =~= q@);
                        }
                        Some(rc_clone(q))
                    },
                };
                self.cur = next;
                Some(result)
            },
        }
    }
}

impl BiPathIter {
    /// How many nodes the iterator was built over.
    pub fn len(&self) -> (r: usize)
        ensures
            r == self.path@.len(),
    {
        self.path.len()
    }

    /// The next node from the front (the root end).
    pub fn next(&mut self) -> (r: Option<Rc<Path>>)
        ensures
            final(self).path@ == old(self).path@ && final(self).back == old(self).back,
            old(self).front + old(self).back >= old(self).path@.len() ==> {
                r is None && final(self).front == old(self).front
            },
            old(self).front + old(self).back < old(self).path@.len() ==> {
                &&& r matches Some(node) && node == old(self).path@[old(self).front as int]
                &&& final(self).front == old(self).front + 1
            },
    {
        if self.front >= self.path.len() || self.path.len() - self.front <= self.back {
            None
        } else {
            let item = rc_clone(&self.path[self.front]);
            self.front = self.front + 1;
            Some(item)
        }
    }

    /// The next node from the back (the leaf end).
    pub fn next_back(&mut self) -> (r: Option<Rc<Path>>)
        ensures
            final(self).path@ == old(self).path@ && final(self).front == old(self).front,
            old(self).front + old(self).back >= old(self).path@.len() ==> {
                r is None && final(self).back == old(self).back
            },
            old(self).front + old(self).back < old(self).path@.len() ==> {
                &&& r matches Some(node) && node == old(self).path@[
                    old(self).path@.len() - 1 - old(self).back
                ]
                &&& final(self).back == old(self).back + 1
            },
    {
        if self.back >= self.path.len() || self.path.len() - self.back <= self.front {
            None
        } else {
            let item = rc_clone(&self.path[self.path.len() - 1 - self.back]);
            self.back = self.back + 1;
            Some(item)
        }
    }
}

/// Two chains over the same name sequence are equal, and a strictly shorter
/// chain always sorts before a longer one, whatever the names.
pub proof fn lemma_path_order_by_length(a: Seq<Seq<char>>, b: Seq<Seq<char>>)
    ensures
        a == b ==> path_order(a, b) == Ordering::Equal,
        a.len() < b.len() ==> path_order(a, b) == Ordering::Less,
    decreases a.len(),
{
    if a == b && a.len() > 0 {
        lemma_path_order_by_length(a.drop_last(), b.drop_last());
        lemma_lex_cmp_chars_refl(a.last());
    }
}

/// Lexicographic comparison of a character sequence with itself is `Equal`.
pub proof fn lemma_lex_cmp_chars_refl(a: Seq<char>)
    ensures
        lex_cmp_chars(a, a) == Ordering::Equal,
    decreases a.len(),
{
    if a.len() > 0 {
        lemma_lex_cmp_chars_refl(a.skip(1));
    }
}

} // verus!
