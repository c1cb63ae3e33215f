//! The dialect tree: a directed graph of languages rooted at the
//! proto-language, where each edge reads "is dialect of". Structural
//! mutation only ever adds a new child to an existing node, so the graph is
//! always a tree; children carry larger indices than their parents.

use vstd::prelude::*;

use crate::language::Language;

verus! {

/// One node: the language it carries, its parent edge, and its children.
struct DialectNode {
    language: Language,
    parent: Option<usize>,
    children: Vec<usize>,
}

/// The inheritance tree of languages. Node 0 is the root proto-language;
/// the active node is the current editing focus.
pub struct DialectTree {
    nodes: Vec<DialectNode>,
    active: usize,
}

impl DialectTree {
    /// The number of nodes.
    pub closed spec fn node_count(self) -> int {
        self.nodes@.len() as int
    }

    /// The parent of a node, if it is not the root.
    pub closed spec fn parent_of(self, n: int) -> Option<int> {
        match self.nodes@[n].parent {
            Some(p) => Some(p as int),
            None => None,
        }
    }

    /// The children of a node, in insertion order.
    pub closed spec fn children_of(self, n: int) -> Seq<int> {
        self.nodes@[n].children@.map_values(|c: usize| c as int)
    }

    /// The language a node carries.
    pub closed spec fn language_of(self, n: int) -> Language {
        self.nodes@[n].language
    }

    /// The current editing focus.
    pub closed spec fn active_spec(self) -> int {
        self.active as int
    }

    /// Structural well-formedness: there is a root and it alone has no
    /// parent, every other node's parent has a smaller index, and parent and
    /// child edges agree.
    pub closed spec fn wf(self) -> bool {
        &&& self.nodes@.len() >= 1
        &&& self.active < self.nodes@.len()
        &&& self.nodes@[0].parent is None
        &&& forall|n: int|
            1 <= n < self.nodes@.len() ==> ((#[trigger] self.nodes@[n].parent) matches Some(p) && p
                < n)
        &&& forall|n: int, i: int|
            0 <= n < self.nodes@.len() && 0 <= i < self.nodes@[n].children@.len() ==> {
                let c = (#[trigger] self.nodes@[n].children@[i]) as int;
                &&& n < c < self.nodes@.len()
                &&& self.nodes@[c].parent == Some(n as usize)
            }
        &&& forall|n: int|
            1 <= n < self.nodes@.len() ==> (self.nodes@[(#[trigger] self.nodes@[n].parent).unwrap()
                as int].children@.contains(n as usize))
        &&& forall|n: int|
            0 <= n < self.nodes@.len() ==> (#[trigger] self.nodes@[n].children@).no_duplicates()
    }

    /// Creates a tree holding only the root.
    pub fn new(root: Language) -> (r: Self)
        ensures
            r.wf(),
            r.node_count() == 1,
            r.children_of(0).len() == 0,
            r.parent_of(0) is None,
            r.language_of(0) == root,
            r.active_spec() == 0,
    {
        let mut nodes: Vec<DialectNode> = Vec::new();
        nodes.push(DialectNode { language: root, parent: None, children: Vec::new() });
        DialectTree { nodes, active: 0 }
    }

    /// The number of nodes.
    pub fn len(&self) -> (r: usize)
        ensures
            r as int == self.node_count(),
    {
        self.nodes.len()
    }

    /// The current editing focus.
    pub fn active_node(&self) -> (r: usize)
        ensures
            r as int == self.active_spec(),
    {
        self.active
    }

    /// Moves the editing focus.
    pub fn set_active(&mut self, n: usize)
        requires
            old(self).wf(),
            n < old(self).node_count(),
        ensures
            final(self).wf(),
            final(self).active_spec() == n as int,
            final(self).node_count() == old(self).node_count(),
            forall|m: int|
                0 <= m < old(self).node_count() ==> #[trigger] final(self).parent_of(m) == old(
                    self,
                ).parent_of(m),
            forall|m: int|
                0 <= m < old(self).node_count() ==> #[trigger] final(self).children_of(m) == old(
                    self,
                ).children_of(m),
            forall|m: int|
                0 <= m < old(self).node_count() ==> #[trigger] final(self).language_of(m) == old(
                    self,
                ).language_of(m),
    {
        self.active = n;
    }

    /// The parent of a node, or `None` for the root.
    pub fn parent(&self, n: usize) -> (r: Option<usize>)
        requires
            n < self.node_count(),
        ensures
            match r {
                Some(p) => self.parent_of(n as int) == Some(p as int),
                None => self.parent_of(n as int) is None,
            },
    {
        self.nodes[n].parent
    }

    /// The children of a node, in insertion order.
    pub fn children(&self, n: usize) -> (r: Vec<usize>)
        requires
            n < self.node_count(),
        ensures
            r@.len() == self.children_of(n as int).len(),
            forall|k: int|
                0 <= k < r@.len() ==> (#[trigger] r@[k]) as int == self.children_of(n as int)[k],
    {
        let mut r: Vec<usize> = Vec::new();
        let mut i: usize = 0;
        while i < self.nodes[n].children.len()
            invariant
                n < self.node_count(),
                i <= self.nodes@[n as int].children@.len(),
                r@.len() == i,
                forall|k: int| 0 <= k < i ==> (#[trigger] r@[k]) == self.nodes@[n as int].children@[k],
            decreases self.nodes@[n as int].children@.len() - i,
        {
            r.push(self.nodes[n].children[i]);
            i += 1;
        }
        r
    }

    /// Reads the language a node carries.
    pub fn language(&self, n: usize) -> (r: &Language)
        requires
            n < self.node_count(),
        ensures
            *r == self.language_of(n as int),
    {
        &self.nodes[n].language
    }

    /// Exchanges the language a node carries with the one behind `other`.
    /// The tree's structure and every other node are untouched.
    pub fn swap_language(&mut self, n: usize, other: &mut Language)
        requires
            old(self).wf(),
            n < old(self).node_count(),
        ensures
            final(self).wf(),
            final(self).node_count() == old(self).node_count(),
            final(self).active_spec() == old(self).active_spec(),
            forall|m: int|
                0 <= m < old(self).node_count() ==> #[trigger] final(self).parent_of(m) == old(
                    self,
                ).parent_of(m),
            forall|m: int|
                0 <= m < old(self).node_count() ==> #[trigger] final(self).children_of(m) == old(
                    self,
                ).children_of(m),
            final(self).language_of(n as int) == *old(other),
            *final(other) == old(self).language_of(n as int),
            forall|m: int|
                0 <= m < old(self).node_count() && m != n as int ==> #[trigger] final(self).language_of(m) == old(self).language_of(m),
    {
        let mut node = DialectNode { language: Language::default(), parent: None, children: Vec::new() };
        self.nodes.set_and_swap(n, &mut node);
        core::mem::swap(&mut node.language, other);
        self.nodes.set_and_swap(n, &mut node);
        proof {
            assert(self.nodes@ =~= old(self).nodes@.update(
                n as int,
                self.nodes@[n as int],
            ));
        }
    }

    /// Creates a new child of `parent` carrying `language` and returns its
    /// index. Only this additive mutation exists, so the graph stays a tree.
    pub fn add_dialect(&mut self, parent: usize, language: Language) -> (child: usize)
        requires
            old(self).wf(),
            parent < old(self).node_count(),
        ensures
            final(self).wf(),
            child as int == old(self).node_count(),
            final(self).node_count() == old(self).node_count() + 1,
            final(self).parent_of(child as int) == Some(parent as int),
            final(self).children_of(child as int).len() == 0,
            final(self).language_of(child as int) == language,
            final(self).children_of(parent as int) == old(self).children_of(parent as int).push(
                child as int,
            ),
            forall|m: int|
                0 <= m < old(self).node_count() && m != parent as int
                    ==> #[trigger] final(self).children_of(m) == old(self).children_of(m),
            forall|m: int|
                0 <= m < old(self).node_count() ==> #[trigger] final(self).language_of(m) == old(
                    self,
                ).language_of(m),
            forall|m: int|
                0 <= m < old(self).node_count() ==> #[trigger] final(self).parent_of(m) == old(
                    self,
                ).parent_of(m),
            final(self).active_spec() == old(self).active_spec(),
    {
        let child = self.nodes.len();
        self.nodes.push(DialectNode { language, parent: Some(parent), children: Vec::new() });
        let mut node = DialectNode { language: Language::default(), parent: None, children: Vec::new() };
        self.nodes.set_and_swap(parent, &mut node);
        node.children.push(child);
        self.nodes.set_and_swap(parent, &mut node);
        proof {
            let pre = *old(self);
            let post = *self;
            assert(post.nodes@.len() == pre.nodes@.len() + 1);
            assert(forall|m: int|
                0 <= m < pre.nodes@.len() && m != parent as int ==> #[trigger] post.nodes@[m]
                    == pre.nodes@[m]);
            assert(post.nodes@[parent as int].parent == pre.nodes@[parent as int].parent);
            assert(post.nodes@[parent as int].children@ =~= pre.nodes@[
                parent as int
            ].children@.push(child));
            assert forall|m: int|
                0 <= m < pre.node_count() && m != parent as int
                    implies #[trigger] post.children_of(m) == pre.children_of(m) by {
                assert(post.nodes@[m] == pre.nodes@[m]);
            }
            assert(post.children_of(parent as int) =~= pre.children_of(parent as int).push(
                child as int,
            ));
            assert(post.children_of(child as int) =~= Seq::<int>::empty());
            assert forall|n: int, i: int|
                0 <= n < post.nodes@.len() && 0 <= i < post.nodes@[n].children@.len() implies {
                let c = (#[trigger] post.nodes@[n].children@[i]) as int;
                &&& n < c < post.nodes@.len()
                &&& post.nodes@[c].parent == Some(n as usize)
            } by {
                if n == parent as int && i == post.nodes@[n].children@.len() - 1 {
                } else {
                    assert(n < pre.nodes@.len());
                    assert(post.nodes@[n].children@[i] == pre.nodes@[n].children@[i]);
                }
            }
            assert forall|n2: int|
                1 <= n2 < post.nodes@.len() implies (post.nodes@[(#[trigger] post.nodes@[
            n2].parent).unwrap() as int].children@.contains(n2 as usize)) by {
                if n2 == child as int {
                    let cs = post.nodes@[parent as int].children@;
                    assert(cs[cs.len() - 1] == child);
                    assert(cs.contains(child));
                } else {
                    let p = pre.nodes@[n2].parent.unwrap() as int;
                    assert(pre.nodes@[p].children@.contains(n2 as usize));
                    let idx = pre.nodes@[p].children@.index_of(n2 as usize);
                    if p == parent as int {
                        assert(post.nodes@[p].children@[idx] == n2 as usize);
                    } else {
                        assert(post.nodes@[p].children@ == pre.nodes@[p].children@);
                    }
                    assert(post.nodes@[p].children@.contains(n2 as usize));
                }
            }
            assert forall|n: int|
                0 <= n < post.nodes@.len() implies (
            #[trigger] post.nodes@[n].children@).no_duplicates() by {
                if n == parent as int {
                    let cs = pre.nodes@[n].children@;
                    assert(post.nodes@[n].children@ =~= cs.push(child as usize));
                    assert forall|i: int, j: int|
                        0 <= i < j < cs.push(child as usize).len() implies (#[trigger] cs.push(
                        child as usize,
                    )[i]) != (#[trigger] cs.push(child as usize)[j]) by {
                        if j == cs.len() {
                            assert((cs[i] as int) < pre.nodes@.len());
                        }
                    }
                }
            }
        }
        child
    }

    /// Replaces the name of the language a node carries.
    pub fn rename(&mut self, n: usize, name: &str)
        requires
            old(self).wf(),
            n < old(self).node_count(),
        ensures
            final(self).wf(),
            final(self).node_count() == old(self).node_count(),
            final(self).active_spec() == old(self).active_spec(),
            forall|m: int|
                0 <= m < old(self).node_count() ==> #[trigger] final(self).parent_of(m) == old(
                    self,
                ).parent_of(m),
            forall|m: int|
                0 <= m < old(self).node_count() ==> #[trigger] final(self).children_of(m) == old(
                    self,
                ).children_of(m),
            forall|m: int|
                0 <= m < old(self).node_count() && m != n as int ==> #[trigger] final(self).language_of(m) == old(self).language_of(m),
            final(self).language_of(n as int).name@ == name@,
            final(self).language_of(n as int).consonants == old(self).language_of(
                n as int,
            ).consonants,
            final(self).language_of(n as int).vowels == old(self).language_of(n as int).vowels,
            final(self).language_of(n as int).sound_changes == old(self).language_of(
                n as int,
            ).sound_changes,
    {
        let mut node = DialectNode { language: Language::default(), parent: None, children: Vec::new() };
        self.nodes.set_and_swap(n, &mut node);
        node.language.name = name.to_owned();
        self.nodes.set_and_swap(n, &mut node);
        proof {
            assert(self.nodes@ =~= old(self).nodes@.update(
                n as int,
                self.nodes@[n as int],
            ));
        }
    }

    /// Whether `m` lies in the subtree rooted at `n`.
    pub open spec fn desc(self, m: int, n: int) -> bool
        decreases m,
        when self.wf() && 0 <= m < self.node_count() && 0 <= n < self.node_count()
    {
        m == n || (m > n && (self.parent_of(m) matches Some(p) && self.desc(p, n)))
    }

    /// Whether a node has no children.
    pub open spec fn is_leaf(self, n: int) -> bool {
        self.children_of(n).len() == 0
    }

    /// The leaves of the subtree rooted at `n`.
    pub open spec fn leaf_desc_set(self, n: int) -> Set<int> {
        Set::new(|m: int| 0 <= m < self.node_count() && self.desc(m, n) && self.is_leaf(m))
    }

    /// The number of leaves in the subtree rooted at `n`, used for layout
    /// sizing.
    pub open spec fn leaf_count_spec(self, n: int) -> nat {
        self.leaf_desc_set(n).len()
    }

    /// Whether `m` lies in the subtree rooted at `n`.
    pub fn is_descendant(&self, m: usize, n: usize) -> (r: bool)
        requires
            self.wf(),
            m < self.node_count(),
            n < self.node_count(),
        ensures
            r == self.desc(m as int, n as int),
        decreases m,
    {
        if m == n {
            true
        } else if m > n {
            match self.nodes[m].parent {
                Some(p) => self.is_descendant(p, n),
                None => unreached(),
            }
        } else {
            false
        }
    }

    /// Counts the leaves of the subtree rooted at `n`.
    pub fn leaf_count(&self, n: usize) -> (r: usize)
        requires
            self.wf(),
            n < self.node_count(),
        ensures
            r as nat == self.leaf_count_spec(n as int),
    {
        let mut count: usize = 0;
        let mut m: usize = 0;
        proof {
            assert(Set::new(
                |x: int| 0 <= x < 0 && self.desc(x, n as int) && self.is_leaf(x),
            ) =~= Set::<int>::empty());
        }
        while m < self.nodes.len()
            invariant
                self.wf(),
                n < self.node_count(),
                m <= self.node_count(),
                count <= m,
                Set::new(
                    |x: int| 0 <= x < m as int && self.desc(x, n as int) && self.is_leaf(x),
                ).finite(),
                count as nat == Set::new(
                    |x: int| 0 <= x < m as int && self.desc(x, n as int) && self.is_leaf(x),
                ).len(),
            decreases self.node_count() - m,
        {
            let ghost prefix = Set::new(
                |x: int| 0 <= x < m as int && self.desc(x, n as int) && self.is_leaf(x),
            );
            let is_hit = self.is_descendant(m, n) && self.nodes[m].children.len() == 0;
            proof {
                let next = Set::new(
                    |x: int| 0 <= x < m + 1 && self.desc(x, n as int) && self.is_leaf(x),
                );
                if self.desc(m as int, n as int) && self.is_leaf(m as int) {
                    assert(next =~= prefix.insert(m as int));
                    assert(!prefix.contains(m as int));
                } else {
                    assert(next =~= prefix);
                }
            }
            if is_hit {
                count += 1;
            }
            m += 1;
        }
        count
    }

    /// The length of the longest chain from `n` to a leaf of its subtree,
    /// counting nodes: a leaf has depth one.
    pub open spec fn depth_spec(self, n: int) -> nat
        decreases self.node_count() - n, 1int, 0int,
        when self.wf() && 0 <= n < self.node_count()
    {
        if self.children_of(n).len() == 0 {
            1
        } else {
            1 + self.depth_children_max(n, self.children_of(n).len() as int)
        }
    }

    /// The greatest depth among the first `i` children of `n`.
    pub open spec fn depth_children_max(self, n: int, i: int) -> nat
        decreases self.node_count() - n, 0int, i,
        when self.wf() && 0 <= n < self.node_count() && 0 <= i <= self.children_of(n).len()
    {
        if i <= 0 {
            0
        } else {
            let d = self.depth_spec(self.children_of(n)[i - 1]);
            let rest = self.depth_children_max(n, i - 1);
            if d > rest {
                d
            } else {
                rest
            }
        }
    }

    /// Depth is bounded by the number of nodes at or after `n`.
    proof fn lemma_depth_bound(self, n: int)
        requires
            self.wf(),
            0 <= n < self.node_count(),
        ensures
            self.depth_spec(n) <= self.node_count() - n,
        decreases self.node_count() - n, 1int, 0int,
    {
        if self.children_of(n).len() != 0 {
            self.lemma_depth_children_bound(n, self.children_of(n).len() as int);
        }
    }

    /// The children's depths are bounded strictly below the subtree size.
    proof fn lemma_depth_children_bound(self, n: int, i: int)
        requires
            self.wf(),
            0 <= n < self.node_count(),
            0 <= i <= self.children_of(n).len(),
        ensures
            self.depth_children_max(n, i) <= self.node_count() - n - 1,
        decreases self.node_count() - n, 0int, i,
    {
        if i > 0 {
            let c = self.children_of(n)[i - 1];
            assert(n < c < self.node_count());
            self.lemma_depth_bound(c);
            self.lemma_depth_children_bound(n, i - 1);
        }
    }

    /// The longest root-to-leaf node count of the subtree rooted at `n`.
    pub fn depth(&self, n: usize) -> (r: usize)
        requires
            self.wf(),
            n < self.node_count(),
        ensures
            r as nat == self.depth_spec(n as int),
        decreases self.node_count() - n,
    {
        if self.nodes[n].children.len() == 0 {
            return 1;
        }
        let mut best: usize = 0;
        let mut i: usize = 0;
        while i < self.nodes[n].children.len()
            invariant
                self.wf(),
                n < self.node_count(),
                i <= self.nodes@[n as int].children@.len(),
                best as nat == self.depth_children_max(n as int, i as int),
                best <= self.node_count() - n - 1,
            decreases self.nodes@[n as int].children@.len() - i,
        {
            let child = self.nodes[n].children[i];
            proof {
                assert(n < child < self.node_count());
                assert(self.children_of(n as int)[i as int] == child as int);
                self.lemma_depth_bound(child as int);
                self.lemma_depth_children_bound(n as int, i as int + 1);
            }
            let d = self.depth(child);
            if d > best {
                best = d;
            }
            i += 1;
        }
        let total = self.nodes.len();
        proof {
            assert(best < total);
        }
        1 + best
    }
}

} // verus!
