//! The namespace trie: dotted operation paths to operation references.
//!
//! A tree node holds at most one operation and a list of children with
//! unique names. The spec function [`spec_lookup`] is the tree's meaning;
//! `insert` pins down both what the inserted path maps to afterwards and
//! that every other path keeps its meaning, which is what makes the
//! build-then-look-up laws provable.

use vstd::prelude::*;
use crate::optypes::{ApiOperation, HttpMethod};
use crate::strutil::{chars_of, string_of, split_chars, split_char_vec};

verus! {

/// Reference to an operation stored in the namespace tree.
pub struct OperationRef {
    /// Operation id.
    pub operation_id: String,
    /// HTTP method.
    pub method: HttpMethod,
    /// URL path.
    pub path: String,
    /// Index into the integration's operations vector.
    pub index: usize,
}

/// A prefix trie keyed on dot-segments of normalized operation ids.
pub struct NamespaceTree {
    /// Child nodes, by segment name; names are unique.
    pub children: Vec<(String, NamespaceTree)>,
    /// Operation at this node, if any.
    pub operation: Option<OperationRef>,
}

/// The index of the first child with the given name, or -1.
pub open spec fn child_index(cs: Seq<(String, NamespaceTree)>, name: Seq<char>) -> int
    decreases cs.len(),
{
    if cs.len() == 0 {
        -1
    } else if cs[0].0@ == name {
        0
    } else {
        let r = child_index(cs.skip(1), name);
        if r < 0 {
            -1
        } else {
            r + 1
        }
    }
}

/// `child_index` finds the first child with the name, if one exists.
pub proof fn lemma_child_index(cs: Seq<(String, NamespaceTree)>, name: Seq<char>)
    ensures
        ({
            let j = child_index(cs, name);
            &&& -1 <= j < cs.len()
            &&& j >= 0 ==> cs[j].0@ == name
            &&& forall|k: int| 0 <= k < cs.len() && cs[k].0@ == name ==> j >= 0 && j <= k
        }),
    decreases cs.len(),
{
    if cs.len() == 0 {
    } else if cs[0].0@ == name {
    } else {
        lemma_child_index(cs.skip(1), name);
        assert forall|k: int| 0 <= k < cs.len() && cs[k].0@ == name implies child_index(cs, name)
            >= 0 && child_index(cs, name) <= k by {
            assert(cs.skip(1)[k - 1] == cs[k]);
        }
    }
}

/// `child_index` depends only on the child names.
pub proof fn lemma_child_index_same_keys(
    cs1: Seq<(String, NamespaceTree)>,
    cs2: Seq<(String, NamespaceTree)>,
    name: Seq<char>,
)
    requires
        cs1.len() == cs2.len(),
        forall|k: int| 0 <= k < cs1.len() ==> cs1[k].0@ == cs2[k].0@,
    ensures
        child_index(cs1, name) == child_index(cs2, name),
    decreases cs1.len(),
{
    if cs1.len() == 0 {
    } else {
        assert(cs1[0].0@ == cs2[0].0@);
        lemma_child_index_same_keys(cs1.skip(1), cs2.skip(1), name);
        assert(forall|k: int|
            0 <= k < cs1.skip(1).len() ==> cs1.skip(1)[k].0@ == cs2.skip(1)[k].0@);
    }
}

/// Appending a child does not change the index of an existing name, and
/// resolves a new name to the appended position.
pub proof fn lemma_child_index_push(
    cs: Seq<(String, NamespaceTree)>,
    x: (String, NamespaceTree),
    name: Seq<char>,
)
    ensures
        child_index(cs, name) >= 0 ==> child_index(cs.push(x), name) == child_index(cs, name),
        child_index(cs, name) < 0 && x.0@ == name ==> child_index(cs.push(x), name) == cs.len(),
        child_index(cs, name) < 0 && x.0@ != name ==> child_index(cs.push(x), name) == -1,
    decreases cs.len(),
{
    if cs.len() == 0 {
        assert(cs.push(x)[0] == x);
        if x.0@ != name {
            assert(cs.push(x).skip(1) =~= Seq::<(String, NamespaceTree)>::empty());
            assert(child_index(Seq::<(String, NamespaceTree)>::empty(), name) == -1);
            assert(child_index(cs.push(x), name) == -1);
        }
    } else {
        lemma_child_index_push(cs.skip(1), x, name);
        assert(cs.push(x)[0] == cs[0]);
        assert(cs.push(x).skip(1) =~= cs.skip(1).push(x));
        if cs[0].0@ == name {
        } else {
            let r = child_index(cs.skip(1), name);
            if r >= 0 {
                assert(child_index(cs.push(x), name) == r + 1);
            } else if x.0@ == name {
                assert(child_index(cs.skip(1).push(x), name) == cs.skip(1).len());
                assert(child_index(cs.push(x), name) == cs.len());
            } else {
                assert(child_index(cs.skip(1).push(x), name) == -1);
                assert(child_index(cs.push(x), name) == -1);
            }
        }
    }
}

/// What a tree maps a segment path to: the operation at the node the path
/// leads to, if any.
pub open spec fn spec_lookup(t: NamespaceTree, parts: Seq<Seq<char>>) -> Option<OperationRef>
    decreases t, parts.len(),
    via spec_lookup_decreases
{
    if parts.len() == 0 {
        t.operation
    } else {
        let j = child_index(t.children@, parts[0]);
        if j < 0 {
            None
        } else {
            spec_lookup(t.children@[j].1, parts.skip(1))
        }
    }
}

#[via_fn]
proof fn spec_lookup_decreases(t: NamespaceTree, parts: Seq<Seq<char>>) {
    if parts.len() > 0 {
        let j = child_index(t.children@, parts[0]);
        lemma_child_index(t.children@, parts[0]);
        if j >= 0 {
            assert(decreases_to!(t => t.children));
            assert(decreases_to!(t.children => t.children@[j]));
            assert(decreases_to!(t.children@[j] => t.children@[j].1));
        }
    }
}

/// The child names of a node are pairwise distinct.
pub open spec fn unique_keys(cs: Seq<(String, NamespaceTree)>) -> bool {
    forall|a: int, b: int| 0 <= a < b < cs.len() ==> cs[a].0@ != cs[b].0@
}

/// Child names are unique at every node.
pub open spec fn wf_tree(t: NamespaceTree) -> bool
    decreases t, 1int, 0int,
    via wf_tree_decreases
{
    unique_keys(t.children@) && wf_children(t.children@, 0)
}

/// Every child from index `i` on is a well-formed tree.
pub open spec fn wf_children(cs: Seq<(String, NamespaceTree)>, i: int) -> bool
    decreases cs, 0int, cs.len() - i,
    via wf_children_decreases
{
    if i < 0 || i >= cs.len() {
        true
    } else {
        wf_tree(cs[i].1) && wf_children(cs, i + 1)
    }
}

#[via_fn]
proof fn wf_tree_decreases(t: NamespaceTree) {
    assert(decreases_to!(t => t.children));
    assert(decreases_to!(t.children => t.children@));
}

#[via_fn]
proof fn wf_children_decreases(cs: Seq<(String, NamespaceTree)>, i: int) {
    if 0 <= i < cs.len() {
        assert(decreases_to!(cs => cs[i]));
        assert(decreases_to!(cs[i] => cs[i].1));
    }
}

/// In a well-formed tree, every child is well-formed.
pub proof fn lemma_wf_child(t: NamespaceTree, k: int)
    requires
        wf_tree(t),
        0 <= k < t.children@.len(),
    ensures
        wf_tree(t.children@[k].1),
{
    lemma_wf_children_elim(t.children@, 0, k);
}

proof fn lemma_wf_children_elim(cs: Seq<(String, NamespaceTree)>, i: int, k: int)
    requires
        wf_children(cs, i),
        i <= k < cs.len(),
        0 <= i,
    ensures
        wf_tree(cs[k].1),
    decreases k - i,
{
    if i < k {
        lemma_wf_children_elim(cs, i + 1, k);
    }
}

/// A node whose children are each well-formed has well-formed children
/// from any index on.
pub proof fn lemma_wf_children_intro(cs: Seq<(String, NamespaceTree)>, i: int)
    requires
        forall|k: int| 0 <= k < cs.len() ==> #[trigger] wf_tree(cs[k].1),
        0 <= i,
    ensures
        wf_children(cs, i),
    decreases cs.len() - i,
{
    if i < cs.len() {
        assert(wf_tree(cs[i].1));
        lemma_wf_children_intro(cs, i + 1);
    }
}

/// The empty tree maps every path to nothing.
pub proof fn lemma_lookup_empty(t: NamespaceTree, parts: Seq<Seq<char>>)
    requires
        t.children@.len() == 0,
        t.operation is None,
    ensures
        spec_lookup(t, parts) is None,
{
}

/// The position of the first child with the given segment name, if any.
fn find_child(cs: &Vec<(String, NamespaceTree)>, seg: &Vec<char>) -> (r: Option<usize>)
    ensures
        match r {
            Some(j) => j < cs@.len() && child_index(cs@, seg@) == j,
            None => child_index(cs@, seg@) == -1,
        },
{
    let n = cs.len();
    let mut j: usize = 0;
    while j < n
        invariant
            j <= n,
            n == cs@.len(),
            forall|k: int| 0 <= k < j ==> cs@[k].0@ != seg@,
        decreases n - j,
    {
        if crate::strutil::str_eq(cs[j].0.as_str(), string_of(seg).as_str()) {
            proof {
                lemma_child_index(cs@, seg@);
            }
            return Some(j);
        }
        j += 1;
    }
    proof {
        lemma_child_index(cs@, seg@);
    }
    None
}

impl NamespaceTree {
    /// An empty namespace tree.
    pub fn new() -> (r: NamespaceTree)
        ensures
            r.children@.len() == 0,
            r.operation is None,
            wf_tree(r),
            forall|q: Seq<Seq<char>>| spec_lookup(r, q) is None,
    {
        let r = NamespaceTree { children: Vec::new(), operation: None };
        proof {
            assert forall|q: Seq<Seq<char>>| spec_lookup(r, q) is None by {
                lemma_lookup_empty(r, q);
            }
        }
        r
    }

    /// Insert an operation at a segment path (tail from `from`).
    ///
    /// Afterwards the inserted path maps to the operation, and every other
    /// path maps to what it mapped to before.
    #[verifier::loop_isolation(false)]
    pub fn insert_parts(&mut self, parts: &Vec<Vec<char>>, from: usize, operation: OperationRef)
        requires
            from <= parts@.len(),
            wf_tree(*old(self)),
        ensures
            wf_tree(*final(self)),
            spec_lookup(*final(self), parts.deep_view().skip(from as int)) == Some(operation),
            forall|q: Seq<Seq<char>>|
                q != parts.deep_view().skip(from as int) ==> spec_lookup(*final(self), q)
                    == spec_lookup(*old(self), q),
        decreases parts@.len() - from,
    {
        if from == parts.len() {
            self.operation = Some(operation);
            proof {
                let target = parts.deep_view().skip(from as int);
                assert(target.len() == 0);
                assert(spec_lookup(*self, target) == Some(operation));
                assert forall|q: Seq<Seq<char>>| q != target implies spec_lookup(*self, q)
                    == spec_lookup(*old(self), q) by {
                    if q.len() == 0 {
                        assert(q =~= target);
                    } else {
                        lemma_child_index_same_keys(self.children@, old(self).children@, q[0]);
                    }
                }
            }
            return ;
        }
        let seg = &parts[from];
        let ghost cs0 = self.children@;
        let found = find_child(&self.children, seg);
        proof {
            lemma_child_index(cs0, parts@[from as int]@);
        }
        if let Some(j) = found {
            // Existing child with this segment name.
            proof {
                lemma_wf_child(*old(self), j as int);
            }
            let pair = self.children.remove(j);
            let (key, mut child) = pair;
            child.insert_parts(parts, from + 1, operation);
            self.children.insert(j, (key, child));
            proof {
                let target = parts.deep_view().skip(from as int);
                let cs1 = self.children@;
                assert(cs1 =~= cs0.update(j as int, (cs0[j as int].0, cs1[j as int].1)));
                assert(cs1.len() == cs0.len());
                assert(forall|k: int| 0 <= k < cs0.len() ==> cs0[k].0@ == cs1[k].0@);
                assert(forall|k: int| 0 <= k < cs0.len() && k != j ==> cs0[k] == cs1[k]);
                assert forall|k: int| 0 <= k < cs1.len() implies #[trigger] wf_tree(
                    cs1[k].1,
                ) by {
                    if k != j {
                        lemma_wf_child(*old(self), k);
                    }
                }
                lemma_wf_children_intro(cs1, 0);
                assert(wf_tree(*self));
                // The inserted path now maps to the operation.
                lemma_child_index_same_keys(cs1, cs0, target[0]);
                assert(target[0] == parts@[from as int]@);
                assert(child_index(cs1, target[0]) == j);
                assert(target.skip(1) =~= parts.deep_view().skip(from + 1));
                assert(spec_lookup(*self, target) == Some(operation));
                // Every other path is unchanged.
                assert forall|q: Seq<Seq<char>>| q != target implies spec_lookup(*self, q)
                    == spec_lookup(*old(self), q) by {
                    if q.len() == 0 {
                    } else {
                        lemma_child_index_same_keys(cs1, cs0, q[0]);
                        let jq = child_index(cs0, q[0]);
                        lemma_child_index(cs0, q[0]);
                        if jq >= 0 {
                            if jq == j {
                                assert(q[0] == target[0]);
                                assert(q.skip(1) != target.skip(1)) by {
                                    assert(seq![q[0]] + q.skip(1) =~= q);
                                    assert(seq![target[0]] + target.skip(1) =~= target);
                                }
                                assert(spec_lookup(cs1[j as int].1, q.skip(1)) == spec_lookup(
                                    cs0[j as int].1,
                                    q.skip(1),
                                ));
                            } else {
                                assert(cs1[jq].1 == cs0[jq].1);
                            }
                        }
                    }
                }
            }
        } else {
            // No child with this segment name: append a fresh subtree.
            let key = string_of(seg);
            let mut child = NamespaceTree::new();
            let ghost child0 = child;
            child.insert_parts(parts, from + 1, operation);
            let ghost child1 = child;
            self.children.push((key, child));
            proof {
                let target = parts.deep_view().skip(from as int);
                let cs1 = self.children@;
                let x = cs1[cs1.len() - 1];
                assert(cs1 =~= cs0.push(x));
                assert(x.0@ == target[0]);
                assert(child_index(cs0, target[0]) < 0);
                // Well-formedness: the new name is not among the old ones.
                assert forall|a: int, b: int|
                    0 <= a < b < cs1.len() implies cs1[a].0@ != cs1[b].0@ by {
                    lemma_child_index(cs0, cs1[b].0@);
                    if b == cs1.len() - 1 {
                        if cs1[a].0@ == cs1[b].0@ {
                            lemma_child_index(cs0, target[0]);
                        }
                    }
                }
                assert forall|k: int| 0 <= k < cs1.len() implies #[trigger] wf_tree(
                    cs1[k].1,
                ) by {
                    if k < cs1.len() - 1 {
                        lemma_wf_child(*old(self), k);
                    }
                }
                lemma_wf_children_intro(cs1, 0);
                assert(wf_tree(*self));
                // The inserted path now maps to the operation.
                lemma_child_index_push(cs0, x, target[0]);
                assert(child_index(cs1, target[0]) == cs0.len());
                assert(target.skip(1) =~= parts.deep_view().skip(from + 1));
                assert(spec_lookup(*self, target) == Some(operation));
                // Every other path is unchanged.
                assert forall|q: Seq<Seq<char>>| q != target implies spec_lookup(*self, q)
                    == spec_lookup(*old(self), q) by {
                    if q.len() == 0 {
                    } else {
                        lemma_child_index_push(cs0, x, q[0]);
                        let jq = child_index(cs0, q[0]);
                        lemma_child_index(cs0, q[0]);
                        if jq >= 0 {
                            assert(cs1[jq].1 == cs0[jq].1);
                        } else if q[0] == target[0] {
                            assert(q.skip(1) != target.skip(1)) by {
                                assert(seq![q[0]] + q.skip(1) =~= q);
                                assert(seq![target[0]] + target.skip(1) =~= target);
                            }
                            assert(spec_lookup(child1, q.skip(1)) == spec_lookup(
                                child0,
                                q.skip(1),
                            ));
                            assert(spec_lookup(child1, q.skip(1)) is None);
                        }
                    }
                }
            }
        }
    }

    /// Insert an operation under a dotted path.
    pub fn insert(&mut self, path: &str, operation: OperationRef)
        requires
            wf_tree(*old(self)),
        ensures
            wf_tree(*final(self)),
            spec_lookup(*final(self), split_chars(path@, '.')) == Some(operation),
            forall|q: Seq<Seq<char>>|
                q != split_chars(path@, '.') ==> spec_lookup(*final(self), q) == spec_lookup(
                    *old(self),
                    q,
                ),
    {
        let cs = chars_of(path);
        let parts = split_char_vec(&cs, '.');
        self.insert_parts(&parts, 0, operation);
        proof {
            assert(parts.deep_view().skip(0) =~= parts.deep_view());
        }
    }

    /// Look up an operation by a tail of segment parts.
    fn lookup_parts<'a>(&'a self, parts: &Vec<Vec<char>>, from: usize) -> (r: Option<
        &'a OperationRef,
    >)
        requires
            from <= parts@.len(),
        ensures
            match r {
                Some(x) => spec_lookup(*self, parts.deep_view().skip(from as int)) == Some(*x),
                None => spec_lookup(*self, parts.deep_view().skip(from as int)) is None,
            },
        decreases parts@.len() - from,
    {
        if from == parts.len() {
            proof {
                assert(parts.deep_view().skip(from as int).len() == 0);
            }
            return match &self.operation {
                Some(x) => Some(x),
                None => None,
            };
        }
        let found = find_child(&self.children, &parts[from]);
        proof {
            lemma_child_index(self.children@, parts@[from as int]@);
            assert(parts.deep_view().skip(from as int)[0] == parts@[from as int]@);
            assert(parts.deep_view().skip(from as int).skip(1) =~= parts.deep_view().skip(
                from + 1,
            ));
        }
        if let Some(j) = found {
            self.children[j].1.lookup_parts(parts, from + 1)
        } else {
            None
        }
    }

    /// Look up an operation by its dotted namespace path.
    pub fn lookup<'a>(&'a self, path: &str) -> (r: Option<&'a OperationRef>)
        ensures
            match r {
                Some(x) => spec_lookup(*self, split_chars(path@, '.')) == Some(*x),
                None => spec_lookup(*self, split_chars(path@, '.')) is None,
            },
    {
        let cs = chars_of(path);
        let parts = split_char_vec(&cs, '.');
        let r = self.lookup_parts(&parts, 0);
        proof {
            assert(parts.deep_view().skip(0) =~= parts.deep_view());
        }
        r
    }
}


/// The dotted rendering of a segment path.
pub open spec fn joined(parts: Seq<Seq<char>>, sep: char) -> Seq<char>
    decreases parts.len(),
{
    if parts.len() == 0 {
        Seq::<char>::empty()
    } else if parts.len() == 1 {
        parts[0]
    } else {
        parts[0] + seq![sep] + joined(parts.skip(1), sep)
    }
}

/// Joining the parts of a split recovers the original sequence.
pub proof fn lemma_joined_split(s: Seq<char>, sep: char)
    ensures
        joined(split_chars(s, sep), sep) == s,
    decreases s.len(),
{
    crate::strutil::lemma_split_nonempty(s, sep);
    if s.len() == 0 {
        assert(joined(split_chars(s, sep), sep) =~= s);
    } else if s[0] == sep {
        lemma_joined_split(s.skip(1), sep);
        crate::strutil::lemma_split_nonempty(s.skip(1), sep);
        let ps = split_chars(s, sep);
        assert(ps.skip(1) =~= split_chars(s.skip(1), sep));
        assert(ps.len() >= 2);
        assert(joined(ps, sep) =~= s);
    } else {
        lemma_joined_split(s.skip(1), sep);
        let rest = split_chars(s.skip(1), sep);
        crate::strutil::lemma_split_nonempty(s.skip(1), sep);
        let ps = split_chars(s, sep);
        assert(ps[0] == seq![s[0]] + rest[0]);
        assert(ps.skip(1) =~= rest.skip(1));
        if rest.len() == 1 {
            assert(joined(rest, sep) == rest[0]);
            assert(joined(ps, sep) == ps[0]);
            assert(joined(ps, sep) =~= s);
        } else {
            assert(joined(rest, sep) == rest[0] + seq![sep] + joined(rest.skip(1), sep));
            assert(joined(ps, sep) == ps[0] + seq![sep] + joined(ps.skip(1), sep));
            assert(joined(ps, sep) =~= seq![s[0]] + joined(rest, sep));
            assert(seq![s[0]] + s.skip(1) =~= s);
        }
    }
}

/// Splitting is injective: equal splits come from equal sequences.
pub proof fn lemma_split_injective(a: Seq<char>, b: Seq<char>, sep: char)
    requires
        split_chars(a, sep) == split_chars(b, sep),
    ensures
        a == b,
{
    lemma_joined_split(a, sep);
    lemma_joined_split(b, sep);
}

/// The reference that stands for operation `i` of `ops`.
pub open spec fn ref_matches(ops: Seq<ApiOperation>, i: int, rf: OperationRef) -> bool {
    &&& rf.index == i
    &&& rf.operation_id@ == ops[i].operation_id@
    &&& rf.method == ops[i].method
    &&& rf.path@ == ops[i].path@
}

/// What building a namespace tree from an operations list guarantees: the
/// tree is well-formed; every operation's normalized id resolves to a
/// reference that stands for some operation with that same normalized id;
/// and where an operation's normalized id has no later duplicate, the id
/// resolves to that very operation (the last insertion wins).
pub open spec fn build_post(ops: Seq<ApiOperation>, t: NamespaceTree) -> bool {
    &&& wf_tree(t)
    &&& (forall|q: Seq<Seq<char>>|
        (#[trigger] spec_lookup(t, q)) matches Some(rf) ==> 0 <= rf.index < ops.len()
            && ref_matches(ops, rf.index as int, rf) && split_chars(
            ops[rf.index as int].normalized_id@,
            '.',
        ) == q)
    &&& forall|i: int|
        0 <= i < ops.len() ==> ((#[trigger] spec_lookup(
            t,
            split_chars(ops[i].normalized_id@, '.'),
        )) matches Some(rf) && exists|w: int|
            0 <= w < ops.len() && ops[w].normalized_id@ == ops[i].normalized_id@ && ref_matches(
                ops,
                w,
                rf,
            ))
    &&& forall|i: int|
        0 <= i < ops.len() && (forall|j: int|
            i < j < ops.len() ==> ops[j].normalized_id@ != ops[i].normalized_id@)
            ==> ((#[trigger] spec_lookup(t, split_chars(ops[i].normalized_id@, '.')))
            matches Some(rf) && ref_matches(ops, i, rf))
}

impl NamespaceTree {
    /// Build a namespace tree from a list of operations; on colliding
    /// normalized ids the last operation wins.
    #[verifier::loop_isolation(false)]
    #[verifier::rlimit(30)]
    pub fn build(operations: &Vec<ApiOperation>) -> (r: NamespaceTree)
        ensures
            build_post(operations@, r),
    {
        let mut tree = NamespaceTree::new();
        let n = operations.len();
        let mut k: usize = 0;
        while k < n
            invariant
                k <= n,
                build_post(operations@.take(k as int), tree),
            decreases n - k,
        {
            let op = &operations[k];
            let rf = OperationRef {
                operation_id: op.operation_id.clone(),
                method: op.method,
                path: op.path.clone(),
                index: k,
            };
            let ghost pre = tree;
            let ghost opsk = operations@.take(k as int);
            let ghost opsk1 = operations@.take(k + 1 as int);
            tree.insert(op.normalized_id.as_str(), rf);
            proof {
                let target = split_chars(operations@[k as int].normalized_id@, '.');
                assert(opsk1 =~= opsk.push(operations@[k as int]));
                assert forall|q: Seq<Seq<char>>|
                    (#[trigger] spec_lookup(tree, q)) is Some implies ({
                        let rf2 = spec_lookup(tree, q).unwrap();
                        0 <= rf2.index < opsk1.len() && ref_matches(opsk1, rf2.index as int, rf2)
                            && split_chars(opsk1[rf2.index as int].normalized_id@, '.') == q
                    }) by {
                    if q == target {
                    } else {
                        assert(spec_lookup(tree, q) == spec_lookup(pre, q));
                    }
                }
                assert forall|i: int|
                    0 <= i < opsk1.len() implies ((#[trigger] spec_lookup(
                    tree,
                    split_chars(opsk1[i].normalized_id@, '.'),
                )) matches Some(rf2) && exists|w: int|
                    0 <= w < opsk1.len() && opsk1[w].normalized_id@ == opsk1[i].normalized_id@
                        && ref_matches(opsk1, w, rf2)) by {
                    if i == k {
                        assert(spec_lookup(tree, target) matches Some(rf2) && ref_matches(
                            opsk1,
                            k as int,
                            rf2,
                        ));
                    } else {
                        let qi = split_chars(opsk1[i].normalized_id@, '.');
                        if qi == target {
                            assert(spec_lookup(tree, target) matches Some(rf2) && ref_matches(
                                opsk1,
                                k as int,
                                rf2,
                            ));
                            lemma_split_injective(
                                opsk1[i].normalized_id@,
                                operations@[k as int].normalized_id@,
                                '.',
                            );
                        } else {
                            assert(spec_lookup(tree, qi) == spec_lookup(pre, qi));
                            assert(spec_lookup(pre, qi) matches Some(rf2) && exists|w: int|
                                0 <= w < opsk.len() && opsk[w].normalized_id@
                                    == opsk[i].normalized_id@ && ref_matches(opsk, w, rf2));
                            let w = choose|w: int|
                                0 <= w < opsk.len() && opsk[w].normalized_id@
                                    == opsk[i].normalized_id@ && ref_matches(
                                    opsk,
                                    w,
                                    spec_lookup(pre, qi).unwrap(),
                                );
                            assert(opsk1[w].normalized_id@ == opsk1[i].normalized_id@
                                && ref_matches(opsk1, w, spec_lookup(pre, qi).unwrap()));
                        }
                    }
                }
                assert forall|i: int|
                    0 <= i < opsk1.len() && (forall|j: int|
                        i < j < opsk1.len() ==> opsk1[j].normalized_id@
                            != opsk1[i].normalized_id@) implies ((#[trigger] spec_lookup(
                    tree,
                    split_chars(opsk1[i].normalized_id@, '.'),
                )) matches Some(rf2) && ref_matches(opsk1, i, rf2)) by {
                    if i == k {
                    } else {
                        let qi = split_chars(opsk1[i].normalized_id@, '.');
                        assert(opsk1[k as int].normalized_id@ != opsk1[i].normalized_id@);
                        if qi == target {
                            lemma_split_injective(
                                opsk1[i].normalized_id@,
                                operations@[k as int].normalized_id@,
                                '.',
                            );
                            assert(false);
                        }
                        assert(spec_lookup(tree, qi) == spec_lookup(pre, qi));
                        assert(forall|j: int|
                            i < j < opsk.len() ==> opsk[j].normalized_id@
                                != opsk[i].normalized_id@);
                    }
                }
                assert(build_post(opsk1, tree));
            }
            k += 1;
        }
        proof {
            assert(operations@.take(n as int) =~= operations@);
        }
        tree
    }
}

/// Every operation of a list has its normalized id among the dotted paths
/// of the tree built from the list.
pub proof fn lemma_build_paths_contain(
    ops: Seq<ApiOperation>,
    t: NamespaceTree,
    rendered: Seq<Seq<char>>,
    i: int,
)
    requires
        build_post(ops, t),
        paths_post(t, rendered),
        0 <= i < ops.len(),
    ensures
        rendered.contains(ops[i].normalized_id@),
{
    let q = split_chars(ops[i].normalized_id@, '.');
    assert(spec_lookup(t, q) is Some);
    lemma_joined_split(ops[i].normalized_id@, '.');
}

/// Where an operation's normalized id is not repeated later in the list,
/// looking that id up in the built tree yields a reference whose index is
/// that operation's position.
pub proof fn lemma_build_lookup_last(ops: Seq<ApiOperation>, t: NamespaceTree, i: int)
    requires
        build_post(ops, t),
        0 <= i < ops.len(),
        forall|j: int| i < j < ops.len() ==> ops[j].normalized_id@ != ops[i].normalized_id@,
    ensures
        spec_lookup(t, split_chars(ops[i].normalized_id@, '.')) matches Some(rf) && ref_matches(
            ops,
            i,
            rf,
        ),
{
}

/// What `paths` guarantees: every path the tree maps is rendered in the
/// result, dotted.
pub open spec fn paths_post(t: NamespaceTree, rendered: Seq<Seq<char>>) -> bool {
    forall|q: Seq<Seq<char>>|
        (#[trigger] spec_lookup(t, q)) is Some ==> rendered.contains(joined(q, '.'))
}


/// An emitted entry is sound for a subtree: it renders some path the
/// subtree maps.
pub open spec fn sound_entry(
    t: NamespaceTree,
    prefix: Seq<char>,
    root: bool,
    entry: Seq<char>,
) -> bool {
    exists|q: Seq<Seq<char>>|
        (#[trigger] spec_lookup(t, q)) is Some && entry == rendered_path(prefix, root, q)
}

/// The dotted rendering that `paths` emits for a path `q` found below a
/// node reached by `prefix` (`root` marks the tree's root, whose prefix is
/// empty).
pub open spec fn rendered_path(prefix: Seq<char>, root: bool, q: Seq<Seq<char>>) -> Seq<char> {
    if root {
        joined(q, '.')
    } else if q.len() == 0 {
        prefix
    } else {
        prefix + seq!['.'] + joined(q, '.')
    }
}

/// The subtree a segment path leads to, if any.
pub open spec fn spec_node(t: NamespaceTree, parts: Seq<Seq<char>>) -> Option<NamespaceTree>
    decreases t, parts.len(),
    via spec_node_decreases
{
    if parts.len() == 0 {
        Some(t)
    } else {
        let j = child_index(t.children@, parts[0]);
        if j < 0 {
            None
        } else {
            spec_node(t.children@[j].1, parts.skip(1))
        }
    }
}

#[via_fn]
proof fn spec_node_decreases(t: NamespaceTree, parts: Seq<Seq<char>>) {
    if parts.len() > 0 {
        let j = child_index(t.children@, parts[0]);
        lemma_child_index(t.children@, parts[0]);
        if j >= 0 {
            assert(decreases_to!(t => t.children));
            assert(decreases_to!(t.children => t.children@[j]));
            assert(decreases_to!(t.children@[j] => t.children@[j].1));
        }
    }
}

/// All operation references in a subtree: the node's own, then each
/// child's, in child order.
pub open spec fn spec_collect(t: NamespaceTree) -> Seq<OperationRef>
    decreases t, 1int, 0int,
    via spec_collect_decreases
{
    (match t.operation {
        Some(rf) => seq![rf],
        None => Seq::<OperationRef>::empty(),
    }) + spec_collect_children(t.children@, 0)
}

/// The references of children from index `i` on.
pub open spec fn spec_collect_children(cs: Seq<(String, NamespaceTree)>, i: int) -> Seq<
    OperationRef,
>
    decreases cs, 0int, cs.len() - i,
    via spec_collect_children_decreases
{
    if i < 0 || i >= cs.len() {
        Seq::<OperationRef>::empty()
    } else {
        spec_collect(cs[i].1) + spec_collect_children(cs, i + 1)
    }
}

#[via_fn]
proof fn spec_collect_decreases(t: NamespaceTree) {
    assert(decreases_to!(t => t.children));
    assert(decreases_to!(t.children => t.children@));
}

#[via_fn]
proof fn spec_collect_children_decreases(cs: Seq<(String, NamespaceTree)>, i: int) {
    if 0 <= i < cs.len() {
        assert(decreases_to!(cs => cs[i]));
        assert(decreases_to!(cs[i] => cs[i].1));
    }
}

/// The child segment names of a node, in order.
pub open spec fn child_names(cs: Seq<(String, NamespaceTree)>) -> Seq<Seq<char>> {
    Seq::new(cs.len(), |k: int| cs[k].0@)
}

impl NamespaceTree {
    /// All dotted paths that map to an operation.
    ///
    /// Complete and sound: every path the tree maps appears, dotted, in
    /// the result, and every entry of the result is the dotted rendering
    /// of a path the tree maps.
    pub fn paths(&self) -> (r: Vec<String>)
        requires
            wf_tree(*self),
        ensures
            paths_post(*self, r.deep_view()),
            forall|k: int|
                0 <= k < r.deep_view().len() ==> sound_entry(
                    *self,
                    Seq::<char>::empty(),
                    true,
                    #[trigger] r.deep_view()[k],
                ),
    {
        let mut out: Vec<String> = Vec::new();
        let prefix: Vec<char> = Vec::new();
        self.collect_paths(&prefix, true, &mut out);
        proof {
            assert(out.deep_view().len() == out@.len());
            assert(prefix@ =~= Seq::<char>::empty());
        }
        out
    }

    #[verifier::loop_isolation(false)]
    fn collect_paths(&self, prefix: &Vec<char>, root: bool, out: &mut Vec<String>)
        requires
            root ==> prefix@.len() == 0,
            wf_tree(*self),
        ensures
            old(out)@.len() <= final(out)@.len(),
            forall|k: int| 0 <= k < old(out)@.len() ==> final(out)@[k] == old(out)@[k],
            forall|q: Seq<Seq<char>>|
                (#[trigger] spec_lookup(*self, q)) is Some ==> final(out).deep_view().contains(
                    rendered_path(prefix@, root, q),
                ),
            forall|k: int|
                old(out)@.len() <= k < final(out)@.len() ==> sound_entry(
                    *self,
                    prefix@,
                    root,
                    #[trigger] final(out).deep_view()[k],
                ),
        decreases self,
    {
        if self.operation.is_some() {
            out.push(crate::strutil::string_of(prefix));
            proof {
                let empty_q = Seq::<Seq<char>>::empty();
                assert(rendered_path(prefix@, root, empty_q) =~= prefix@);
                assert(out.deep_view()[out@.len() - 1] == prefix@);
                assert(spec_lookup(*self, empty_q) is Some && out.deep_view()[out@.len() - 1]
                    == rendered_path(prefix@, root, empty_q));
                assert(sound_entry(*self, prefix@, root, out.deep_view()[out@.len() - 1]));
            }
        }
        let n = self.children.len();
        let mut c: usize = 0;
        while c < n
            invariant
                c <= n,
                n == self.children@.len(),
                self.operation is Some ==> out.deep_view().contains(
                    rendered_path(prefix@, root, Seq::<Seq<char>>::empty()),
                ),
                old(out)@.len() <= out@.len(),
                forall|k: int| 0 <= k < old(out)@.len() ==> out@[k] == old(out)@[k],
                forall|q: Seq<Seq<char>>|
                    q.len() > 0 && 0 <= child_index(self.children@, q[0]) < c && (
                    #[trigger] spec_lookup(*self, q)) is Some ==> out.deep_view().contains(
                        rendered_path(prefix@, root, q),
                    ),
                forall|k: int|
                    old(out)@.len() <= k < out@.len() ==> sound_entry(
                        *self,
                        prefix@,
                        root,
                        #[trigger] out.deep_view()[k],
                    ),
            decreases n - c,
        {
            let key_chars = crate::strutil::chars_of(self.children[c].0.as_str());
            let mut prefix2: Vec<char> = Vec::new();
            if root {
                prefix2 = crate::strutil::subrange_chars(&key_chars, 0, key_chars.len());
            } else {
                prefix2 = crate::strutil::subrange_chars(prefix, 0, prefix.len());
                prefix2.push('.');
                let mut kc = key_chars;
                prefix2.append(&mut kc);
            }
            proof {
                assert(prefix2@ =~= if root {
                    self.children@[c as int].0@
                } else {
                    prefix@ + seq!['.'] + self.children@[c as int].0@
                });
            }
            proof {
                lemma_wf_child(*self, c as int);
            }
            let ghost out_before = out@;
            let ghost dv0 = out.deep_view();
            self.children[c].1.collect_paths(&prefix2, false, out);
            proof {
                assert forall|k: int| old(out)@.len() <= k < out@.len() implies sound_entry(
                    *self,
                    prefix@,
                    root,
                    #[trigger] out.deep_view()[k],
                ) by {
                    if k < out_before.len() {
                        assert(out@[k] == out_before[k]);
                        assert(out.deep_view()[k] == dv0[k]);
                        assert(sound_entry(*self, prefix@, root, dv0[k]));
                    } else {
                        let child = self.children@[c as int].1;
                        let name = self.children@[c as int].0@;
                        assert(sound_entry(child, prefix2@, false, out.deep_view()[k]));
                        let qc = choose|qc: Seq<Seq<char>>|
                            (#[trigger] spec_lookup(child, qc)) is Some && out.deep_view()[k]
                                == rendered_path(prefix2@, false, qc);
                        let q = seq![name] + qc;
                        lemma_child_index(self.children@, name);
                        let j = child_index(self.children@, name);
                        assert(j >= 0 && j <= c);
                        if j < c {
                            assert(self.children@[j].0@ == name);
                            assert(false);
                        }
                        assert(q[0] == name && q.skip(1) =~= qc);
                        assert(spec_lookup(*self, q) == spec_lookup(child, qc));
                        assert(rendered_path(prefix@, root, q) =~= rendered_path(
                            prefix2@,
                            false,
                            qc,
                        )) by {
                            if qc.len() == 0 {
                                assert(q.len() == 1);
                                assert(joined(q, '.') == q[0]);
                            } else {
                                assert(joined(q, '.') == q[0] + seq!['.'] + joined(
                                    q.skip(1),
                                    '.',
                                ));
                                assert(joined(q.skip(1), '.') == joined(qc, '.'));
                            }
                        }
                        assert(spec_lookup(*self, q) is Some && out.deep_view()[k]
                            == rendered_path(prefix@, root, q));
                        assert(sound_entry(*self, prefix@, root, out.deep_view()[k]));
                    }
                }
                assert forall|q: Seq<Seq<char>>|
                    q.len() > 0 && 0 <= child_index(self.children@, q[0]) < c + 1 && (
                    #[trigger] spec_lookup(*self, q)) is Some implies out.deep_view().contains(
                        rendered_path(prefix@, root, q),
                    ) by {
                    let j = child_index(self.children@, q[0]);
                    lemma_child_index(self.children@, q[0]);
                    if j < c {
                        let k = choose|k: int|
                            0 <= k < out_before.len() && out_before[k]@ == rendered_path(
                                prefix@,
                                root,
                                q,
                            );
                        assert(out.deep_view()[k] == rendered_path(prefix@, root, q));
                    } else {
                        assert(j == c);
                        assert(self.children@[c as int].0@ == q[0]);
                        assert(spec_lookup(self.children@[c as int].1, q.skip(1)) is Some);
                        assert(out.deep_view().contains(
                            rendered_path(prefix2@, false, q.skip(1)),
                        ));
                        assert(rendered_path(prefix2@, false, q.skip(1)) =~= rendered_path(
                            prefix@,
                            root,
                            q,
                        )) by {
                            assert(seq![q[0]] + q.skip(1) =~= q);
                            if q.skip(1).len() == 0 {
                                assert(q.len() == 1);
                                assert(joined(q, '.') == q[0]);
                            } else {
                                assert(joined(q, '.') == q[0] + seq!['.'] + joined(
                                    q.skip(1),
                                    '.',
                                ));
                            }
                        }
                    }
                }
                assert(self.operation is Some ==> out.deep_view().contains(
                    rendered_path(prefix@, root, Seq::<Seq<char>>::empty()),
                )) by {
                    if self.operation is Some {
                        let k = choose|k: int|
                            0 <= k < out_before.len() && out_before[k]@ == rendered_path(
                                prefix@,
                                root,
                                Seq::<Seq<char>>::empty(),
                            );
                        assert(out.deep_view()[k] == rendered_path(
                            prefix@,
                            root,
                            Seq::<Seq<char>>::empty(),
                        ));
                    }
                }
            }
            c += 1;
        }
        proof {
            assert forall|q: Seq<Seq<char>>| (#[trigger] spec_lookup(*self, q)) is Some
                implies out.deep_view().contains(rendered_path(prefix@, root, q)) by {
                if q.len() > 0 {
                    lemma_child_index(self.children@, q[0]);
                }
            }
        }
    }

    /// The subtree a dotted path leads to, if any (tail from `from`).
    fn node_at<'a>(&'a self, parts: &Vec<Vec<char>>, from: usize) -> (r: Option<
        &'a NamespaceTree,
    >)
        requires
            from <= parts@.len(),
        ensures
            match r {
                Some(n) => spec_node(*self, parts.deep_view().skip(from as int)) == Some(*n),
                None => spec_node(*self, parts.deep_view().skip(from as int)) is None,
            },
        decreases parts@.len() - from,
    {
        if from == parts.len() {
            proof {
                assert(parts.deep_view().skip(from as int).len() == 0);
            }
            return Some(self);
        }
        let found = find_child(&self.children, &parts[from]);
        proof {
            assert(parts.deep_view().skip(from as int)[0] == parts@[from as int]@);
            assert(parts.deep_view().skip(from as int).skip(1) =~= parts.deep_view().skip(
                from + 1,
            ));
        }
        if let Some(j) = found {
            self.children[j].1.node_at(parts, from + 1)
        } else {
            None
        }
    }

    /// All operation references in this subtree: the node's own first, then
    /// each child's, in child order.
    #[verifier::loop_isolation(false)]
    pub fn collect_all<'a>(&'a self) -> (r: Vec<&'a OperationRef>)
        ensures
            r@.len() == spec_collect(*self).len(),
            forall|k: int| 0 <= k < r@.len() ==> *r@[k] == spec_collect(*self)[k],
        decreases self,
    {
        let mut r: Vec<&'a OperationRef> = Vec::new();
        match &self.operation {
            Some(rf) => {
                r.push(rf);
            },
            None => {},
        }
        let n = self.children.len();
        let mut c: usize = 0;
        while c < n
            invariant
                c <= n,
                n == self.children@.len(),
                ({
                    let head: Seq<OperationRef> = match self.operation {
                        Some(rf) => seq![rf],
                        None => Seq::<OperationRef>::empty(),
                    };
                    &&& spec_collect(*self) =~= r@.map_values(|x: &OperationRef| *x)
                        + spec_collect_children(self.children@, c as int)
                    &&& r@.len() >= 0
                }),
            decreases n - c,
        {
            let mut sub = self.children[c].1.collect_all();
            let ghost r_before = r@;
            let ghost sub_snap = sub@;
            r.append(&mut sub);
            proof {
                assert(r@ =~= r_before + sub_snap);
                assert(r@.map_values(|x: &OperationRef| *x) =~= r_before.map_values(
                    |x: &OperationRef| *x,
                ) + sub_snap.map_values(|x: &OperationRef| *x));
                assert(sub_snap.map_values(|x: &OperationRef| *x) =~= spec_collect(
                    self.children@[c as int].1,
                ));
            }
            c += 1;
        }
        proof {
            assert(spec_collect_children(self.children@, n as int)
                == Seq::<OperationRef>::empty());
            assert(spec_collect(*self) =~= r@.map_values(|x: &OperationRef| *x));
            assert forall|k: int| 0 <= k < r@.len() implies *r@[k] == spec_collect(*self)[k] by {
                assert(r@.map_values(|x: &OperationRef| *x)[k] == *r@[k]);
            }
        }
        r
    }

    /// All operation references under a dotted namespace prefix; the empty
    /// prefix yields every reference in the tree.
    pub fn list<'a>(&'a self, prefix: &str) -> (r: Vec<&'a OperationRef>)
        ensures
            ({
                let node = if prefix@.len() == 0 {
                    Some(*self)
                } else {
                    spec_node(*self, split_chars(prefix@, '.'))
                };
                match node {
                    Some(n) => r@.len() == spec_collect(n).len() && forall|k: int|
                        0 <= k < r@.len() ==> *r@[k] == spec_collect(n)[k],
                    None => r@.len() == 0,
                }
            }),
    {
        if prefix.unicode_len() == 0 {
            return self.collect_all();
        }
        let cs = chars_of(prefix);
        let parts = split_char_vec(&cs, '.');
        proof {
            assert(parts.deep_view().skip(0) =~= parts.deep_view());
        }
        match self.node_at(&parts, 0) {
            Some(n) => n.collect_all(),
            None => Vec::new(),
        }
    }

    /// The immediate child segment names under a dotted prefix; the empty
    /// prefix yields the root's children.
    pub fn children_at(&self, prefix: &str) -> (r: Vec<String>)
        ensures
            ({
                let node = if prefix@.len() == 0 {
                    Some(*self)
                } else {
                    spec_node(*self, split_chars(prefix@, '.'))
                };
                match node {
                    Some(n) => r.deep_view() == child_names(n.children@),
                    None => r@.len() == 0,
                }
            }),
    {
        let node: Option<&NamespaceTree> = if prefix.unicode_len() == 0 {
            Some(self)
        } else {
            let cs = chars_of(prefix);
            let parts = split_char_vec(&cs, '.');
            proof {
                assert(parts.deep_view().skip(0) =~= parts.deep_view());
            }
            self.node_at(&parts, 0)
        };
        match node {
            Some(n) => {
                let mut r: Vec<String> = Vec::new();
                let m = n.children.len();
                let mut k: usize = 0;
                while k < m
                    invariant
                        k <= m,
                        m == n.children@.len(),
                        r@.len() == k,
                        forall|i: int| 0 <= i < k ==> r@[i]@ == n.children@[i].0@,
                    decreases m - k,
                {
                    let key = n.children[k].0.clone();
                    assert(key@ == n.children@[k as int].0@);
                    r.push(key);
                    k += 1;
                }
                proof {
                    assert(r.deep_view() =~= child_names(n.children@));
                }
                r
            },
            None => Vec::new(),
        }
    }
}

} // verus!
