//! The walk over the tree of a snapshot that finds what is to be exported.
//!
//! A snapshot is a tree of directories, and directories can share subdirectories
//! and file contents. The walk visits every directory once, and lists every
//! directory and every piece of content once.

use vstd::prelude::*;
use crate::ids::{IdSet, ID};

verus! {

/// What a blob holds.
#[derive(Debug, Copy, Clone, PartialEq, Eq, Structural)]
pub enum BlobType {
    /// File contents.
    Data,
    /// A directory.
    Tree,
}

/// A piece of a file, and its length if the index knows it.
#[derive(Debug, Copy, Clone, PartialEq, Eq, Structural)]
pub struct BlobRef {
    /// The piece.
    pub id: ID,
    /// Its length before it was encoded.
    pub raw_length: Option<u32>,
}

/// What the walk reads of an entry of a directory.
#[derive(Debug)]
pub struct TreeNode {
    /// The directory, where the entry is one.
    pub tree: Option<ID>,
    /// The pieces, where the entry is a file.
    pub blobs: Option<Vec<BlobRef>>,
}

impl TreeNode {
    /// The pieces of an entry.
    pub open spec fn pieces(self) -> Seq<BlobRef> {
        match self.blobs {
            Some(v) => v@,
            None => Seq::<BlobRef>::empty(),
        }
    }
}

/// How far a walk has come.
pub struct Walk {
    /// The directories that are still to be visited, the next one last.
    pub stack: Seq<ID>,
    /// The directories that have been visited.
    pub trees: Set<ID>,
    /// The pieces that have been seen.
    pub blobs: Set<ID>,
    /// What is to be exported, in the order in which it was found.
    pub list: Seq<(ID, BlobType)>,
    /// The length of all of it.
    pub total: nat,
}

/// A length that is not known counts as nothing.
pub open spec fn length(raw: Option<u32>) -> nat {
    match raw {
        Some(n) => n as nat,
        None => 0,
    }
}

/// The walk before its first step.
pub open spec fn walk_from(root: ID) -> Walk {
    Walk {
        stack: seq![root],
        trees: Set::empty(),
        blobs: Set::empty(),
        list: Seq::empty(),
        total: 0,
    }
}

/// The walk up to the next directory that has not been visited, and that
/// directory, which counts as visited then.
pub open spec fn take_tree(w: Walk) -> (Walk, Option<ID>)
    decreases w.stack.len(),
{
    if w.stack.len() == 0 {
        (w, None)
    } else {
        let id = w.stack.last();
        let rest = Walk { stack: w.stack.drop_last(), ..w };
        if w.trees.contains(id) {
            take_tree(rest)
        } else {
            (
                Walk { trees: w.trees.insert(id), list: w.list.push((id, BlobType::Tree)), ..rest },
                Some(id),
            )
        }
    }
}

/// The walk after a piece of a file.
pub open spec fn with_blob(w: Walk, b: BlobRef) -> Walk {
    if w.blobs.contains(b.id) {
        w
    } else {
        Walk {
            blobs: w.blobs.insert(b.id),
            list: w.list.push((b.id, BlobType::Data)),
            total: w.total + length(b.raw_length),
            ..w
        }
    }
}

/// The walk after some pieces of a file.
pub open spec fn with_blobs(w: Walk, bs: Seq<BlobRef>) -> Walk
    decreases bs.len(),
{
    if bs.len() == 0 {
        w
    } else {
        with_blob(with_blobs(w, bs.drop_last()), bs.last())
    }
}

/// The walk with a subdirectory put on the stack.
pub open spec fn with_subtree(w: Walk, tree: Option<ID>) -> Walk {
    match tree {
        Some(id) => Walk { stack: w.stack.push(id), ..w },
        None => w,
    }
}

/// The walk after some entries of a directory.
pub open spec fn with_nodes(w: Walk, ns: Seq<TreeNode>) -> Walk
    decreases ns.len(),
{
    if ns.len() == 0 {
        w
    } else {
        with_blobs(with_subtree(with_nodes(w, ns.drop_last()), ns.last().tree), ns.last().pieces())
    }
}

/// The walk after a directory of the given length and with the given entries.
pub open spec fn with_tree(w: Walk, raw_length: Option<u32>, ns: Seq<TreeNode>) -> Walk {
    with_nodes(Walk { total: w.total + length(raw_length), ..w }, ns)
}

/// A walk in progress.
pub struct ExportWalk {
    stack: Vec<ID>,
    trees: IdSet,
    blobs: IdSet,
    list: Vec<(ID, BlobType)>,
    total: u128,
}

impl View for ExportWalk {
    type V = Walk;

    closed spec fn view(&self) -> Walk {
        Walk {
            stack: self.stack@,
            trees: self.trees@,
            blobs: self.blobs@,
            list: self.list@,
            total: self.total as nat,
        }
    }
}

impl ExportWalk {
    /// Whether the length of what was found is no more than so many pieces can
    /// have.
    pub open spec fn well_formed(&self) -> bool {
        self@.total <= self@.list.len() * u32::MAX
    }

    /// Whether the length of a directory that was taken is still to be counted.
    pub open spec fn has_room(&self) -> bool {
        self@.total + u32::MAX <= self@.list.len() * u32::MAX
    }

    /// Begins a walk at the directory of a snapshot.
    pub fn new(root: ID) -> (r: ExportWalk)
        ensures
            r.well_formed(),
            r@ == walk_from(root),
    {
        let mut stack: Vec<ID> = Vec::new();
        stack.push(root);
        let r = ExportWalk { stack, trees: IdSet::new(), blobs: IdSet::new(), list: Vec::new(), total: 0 };
        assert(r@.stack =~= seq![root]);
        assert(r@.list =~= Seq::<(ID, BlobType)>::empty());
        r
    }

    /// The next directory to load. None where the walk is over.
    pub fn next_tree(&mut self) -> (r: Option<ID>)
        requires
            old(self).well_formed(),
        ensures
            final(self).well_formed(),
            final(self)@ == take_tree(old(self)@).0,
            r == take_tree(old(self)@).1,
            r is Some ==> final(self).has_room(),
    {
        loop
            invariant
                self.well_formed(),
                take_tree(self@) == take_tree(old(self)@),
            decreases self@.stack.len(),
        {
            let ghost before = self@;
            match self.stack.pop() {
                None => {
                    return None;
                },
                Some(id) => {
                    assert(before.stack.last() == id);
                    if self.trees.insert(id) {
                        self.list.push((id, BlobType::Tree));
                        assert(self@ == take_tree(before).0);
                        return Some(id);
                    }
                    assert(self@.trees =~= before.trees);
                    assert(self@ == (Walk { stack: before.stack.drop_last(), ..before }));
                },
            }
        }
    }

    fn add_blobs(&mut self, bs: &Vec<BlobRef>)
        requires
            old(self).well_formed(),
        ensures
            final(self).well_formed(),
            final(self)@ == with_blobs(old(self)@, bs@),
    {
        let mut i: usize = 0;
        while i < bs.len()
            invariant
                i <= bs@.len(),
                self.well_formed(),
                self@ == with_blobs(old(self)@, bs@.take(i as int)),
            decreases bs@.len() - i,
        {
            let ghost before = self@;
            let b: BlobRef = bs[i];
            assert(bs@.take(i + 1).drop_last() =~= bs@.take(i as int));
            if self.blobs.insert(b.id) {
                let count: usize = self.list.len();
                assert(self.total <= usize::MAX * u32::MAX) by (nonlinear_arith)
                    requires
                        self.total <= count * u32::MAX,
                        count <= usize::MAX,
                ;
                assert(usize::MAX * u32::MAX + u32::MAX <= u128::MAX) by (nonlinear_arith)
                    requires
                        usize::MAX <= 0xffff_ffff_ffff_ffff,
                ;
                self.list.push((b.id, BlobType::Data));
                if let Some(n) = b.raw_length {
                    self.total = self.total + n as u128;
                }
                assert((count + 1) * u32::MAX == count * u32::MAX + u32::MAX) by (nonlinear_arith);
            } else {
                assert(self@.blobs =~= before.blobs);
            }
            assert(self@ == with_blob(before, b));
            i = i + 1;
        }
        assert(bs@.take(bs@.len() as int) =~= bs@);
    }

    /// Goes on with the entries of the directory that was loaded last.
    pub fn tree_loaded(&mut self, raw_length: Option<u32>, nodes: &Vec<TreeNode>)
        requires
            old(self).has_room(),
        ensures
            final(self).well_formed(),
            final(self)@ == with_tree(old(self)@, raw_length, nodes@),
    {
        let ghost start = Walk { total: self@.total + length(raw_length), ..self@ };
        let count: usize = self.list.len();
        assert(self.total + u32::MAX <= u128::MAX) by (nonlinear_arith)
            requires
                self.total + u32::MAX <= count * u32::MAX,
                count <= usize::MAX,
                usize::MAX <= 0xffff_ffff_ffff_ffff,
        ;
        if let Some(n) = raw_length {
            self.total = self.total + n as u128;
        }
        let mut i: usize = 0;
        while i < nodes.len()
            invariant
                i <= nodes@.len(),
                self.well_formed(),
                self@ == with_nodes(start, nodes@.take(i as int)),
            decreases nodes@.len() - i,
        {
            let ghost before = self@;
            assert(nodes@.take(i + 1).drop_last() =~= nodes@.take(i as int));
            if let Some(id) = nodes[i].tree {
                self.stack.push(id);
            }
            assert(self@ == with_subtree(before, nodes@[i as int].tree));
            if let Some(bs) = &nodes[i].blobs {
                self.add_blobs(bs);
            }
            assert(self@ == with_blobs(with_subtree(before, nodes@[i as int].tree), nodes@[i as int].pieces()));
            i = i + 1;
        }
        assert(nodes@.take(nodes@.len() as int) =~= nodes@);
    }

    /// What was found so far.
    pub fn found(&self) -> (r: &Vec<(ID, BlobType)>)
        ensures
            r@ == self@.list,
    {
        &self.list
    }

    /// The length of what was found so far. None where it does not fit.
    pub fn total_bytes(&self) -> (r: Option<u64>)
        ensures
            match r {
                Some(n) => n == self@.total,
                None => self@.total > u64::MAX,
            },
    {
        if self.total <= 0xffff_ffff_ffff_ffffu128 {
            Some(self.total as u64)
        } else {
            None
        }
    }
}

// ---------------------------------------------------------------------------
// What a walk finds
// ---------------------------------------------------------------------------

/// Whether a directory has another as an entry.
pub open spec fn has_subtree(ns: Seq<TreeNode>, id: ID) -> bool {
    exists|i: int| 0 <= i < ns.len() && (#[trigger] ns[i]).tree == Some(id)
}

/// Whether some pieces are those of the given identifier.
pub open spec fn among(bs: Seq<BlobRef>, id: ID) -> bool {
    exists|j: int| 0 <= j < bs.len() && (#[trigger] bs[j]).id == id
}

/// Whether a file in a directory has a piece.
pub open spec fn has_blob(ns: Seq<TreeNode>, id: ID) -> bool {
    exists|i: int| 0 <= i < ns.len() && among((#[trigger] ns[i]).pieces(), id)
}

/// Whether a row of directories leads from one to another, each an entry of the
/// one before it.
pub open spec fn leads(repo: spec_fn(ID) -> Seq<TreeNode>, path: Seq<ID>, from: ID, to: ID) -> bool {
    &&& path.len() > 0
    &&& path[0] == from
    &&& path.last() == to
    &&& forall|i: int| 0 <= i < path.len() - 1 ==> has_subtree(repo(#[trigger] path[i]), path[i + 1])
}

/// Whether a directory can be reached from another.
pub open spec fn reachable(repo: spec_fn(ID) -> Seq<TreeNode>, from: ID, to: ID) -> bool {
    exists|path: Seq<ID>| leads(repo, path, from, to)
}

/// The lengths of a list of blobs, added up.
pub open spec fn lengths(index: spec_fn(ID) -> Option<u32>, list: Seq<(ID, BlobType)>) -> nat
    decreases list.len(),
{
    if list.len() == 0 {
        0
    } else {
        lengths(index, list.drop_last()) + length(index(list.last().0))
    }
}

/// Whether the lengths of the pieces in a directory are those of the index.
pub open spec fn lengths_known(index: spec_fn(ID) -> Option<u32>, ns: Seq<TreeNode>) -> bool {
    forall|i: int, j: int|
        0 <= i < ns.len() && 0 <= j < ns[i].pieces().len() ==> (#[trigger] ns[i].pieces()[j]).raw_length == index(
            ns[i].pieces()[j].id,
        )
}

/// One round of a walk: the next directory is taken, loaded and gone through.
pub open spec fn round(repo: spec_fn(ID) -> Seq<TreeNode>, index: spec_fn(ID) -> Option<u32>, w: Walk) -> Walk {
    let (taken, id) = take_tree(w);
    match id {
        Some(id) => with_tree(taken, index(id), repo(id)),
        None => taken,
    }
}

/// The walk after a number of rounds.
pub open spec fn rounds(
    repo: spec_fn(ID) -> Seq<TreeNode>,
    index: spec_fn(ID) -> Option<u32>,
    root: ID,
    n: nat,
) -> Walk
    decreases n,
{
    if n == 0 {
        walk_from(root)
    } else {
        round(repo, index, rounds(repo, index, root, (n - 1) as nat))
    }
}

/// What holds of a walk after every round.
pub open spec fn on_the_way(
    repo: spec_fn(ID) -> Seq<TreeNode>,
    index: spec_fn(ID) -> Option<u32>,
    root: ID,
    w: Walk,
) -> bool {
    &&& listed_once(w)
    &&& w.total == lengths(index, w.list)
    &&& w.trees.contains(root) || w.stack.contains(root)
    &&& forall|x: ID| #[trigger] w.trees.contains(x) ==> reachable(repo, root, x)
    &&& forall|x: ID| #[trigger] w.stack.contains(x) ==> reachable(repo, root, x)
    &&& forall|x: ID, y: ID|
        #![trigger w.trees.contains(x), has_subtree(repo(x), y)]
        w.trees.contains(x) && has_subtree(repo(x), y) ==> w.trees.contains(y) || w.stack.contains(y)
    &&& forall|x: ID, b: ID|
        #![trigger w.trees.contains(x), has_blob(repo(x), b)]
        w.trees.contains(x) && has_blob(repo(x), b) ==> w.blobs.contains(b)
    &&& forall|b: ID| #[trigger]
        w.blobs.contains(b) ==> exists|x: ID| #[trigger] w.trees.contains(x) && has_blob(repo(x), b)
}

/// Whether a walk has listed what it has seen, and each thing once.
pub open spec fn listed_once(w: Walk) -> bool {
    &&& w.list.no_duplicates()
    &&& forall|x: ID| #[trigger] w.list.contains((x, BlobType::Tree)) <==> w.trees.contains(x)
    &&& forall|x: ID| #[trigger] w.list.contains((x, BlobType::Data)) <==> w.blobs.contains(x)
}

proof fn lemma_push_list(list: Seq<(ID, BlobType)>, e: (ID, BlobType))
    ensures
        forall|x: (ID, BlobType)| #[trigger] list.push(e).contains(x) <==> list.contains(x) || x == e,
        list.no_duplicates() && !list.contains(e) ==> list.push(e).no_duplicates(),
{
    assert forall|x: (ID, BlobType)| #[trigger] list.push(e).contains(x) <==> list.contains(x) || x == e by {
        if list.contains(x) {
            let k = choose|k: int| 0 <= k < list.len() && list[k] == x;
            assert(list.push(e)[k] == x);
        }
        if x == e {
            assert(list.push(e)[list.len() as int] == x);
        }
    }
}

proof fn lemma_push_stack(s: Seq<ID>, id: ID)
    ensures
        forall|x: ID| #[trigger] s.push(id).contains(x) <==> s.contains(x) || x == id,
{
    assert forall|x: ID| #[trigger] s.push(id).contains(x) <==> s.contains(x) || x == id by {
        if s.contains(x) {
            let k = choose|k: int| 0 <= k < s.len() && s[k] == x;
            assert(s.push(id)[k] == x);
        }
        if x == id {
            assert(s.push(id)[s.len() as int] == x);
        }
    }
}

proof fn lemma_take_tree(index: spec_fn(ID) -> Option<u32>, w: Walk)
    requires
        listed_once(w),
    ensures
        ({
            let (t, r) = take_tree(w);
            &&& listed_once(t)
            &&& t.blobs == w.blobs
            &&& t.total == w.total
            &&& forall|x: ID| #[trigger] t.stack.contains(x) ==> w.stack.contains(x)
            &&& forall|x: ID| #[trigger] w.stack.contains(x) ==> t.stack.contains(x) || t.trees.contains(x)
            &&& match r {
                Some(id) => {
                    &&& w.stack.contains(id)
                    &&& !w.trees.contains(id)
                    &&& t.trees == w.trees.insert(id)
                    &&& lengths(index, t.list) == lengths(index, w.list) + length(index(id))
                },
                None => {
                    &&& t.stack.len() == 0
                    &&& t.trees == w.trees
                    &&& t.list == w.list
                },
            }
        }),
    decreases w.stack.len(),
{
    if w.stack.len() > 0 {
        let id = w.stack.last();
        let rest = Walk { stack: w.stack.drop_last(), ..w };
        assert(w.stack =~= rest.stack.push(id));
        lemma_push_stack(rest.stack, id);
        if w.trees.contains(id) {
            lemma_take_tree(index, rest);
            let (t, r) = take_tree(rest);
            assert(t.trees.contains(id));
        } else {
            lemma_push_list(w.list, (id, BlobType::Tree));
            assert(!w.list.contains((id, BlobType::Tree)));
            let (t, r) = take_tree(w);
            assert(t.list.drop_last() =~= w.list);
        }
    }
}

proof fn lemma_with_blobs(index: spec_fn(ID) -> Option<u32>, w: Walk, bs: Seq<BlobRef>)
    requires
        listed_once(w),
        forall|j: int| 0 <= j < bs.len() ==> (#[trigger] bs[j]).raw_length == index(bs[j].id),
    ensures
        ({
            let v = with_blobs(w, bs);
            &&& listed_once(v)
            &&& v.stack == w.stack
            &&& v.trees == w.trees
            &&& v.total - lengths(index, v.list) == w.total - lengths(index, w.list)
            &&& forall|x: ID| #[trigger] v.blobs.contains(x) <==> w.blobs.contains(x) || among(bs, x)
        }),
    decreases bs.len(),
{
    if bs.len() > 0 {
        let most = bs.drop_last();
        let b = bs.last();
        assert forall|j: int| 0 <= j < most.len() implies (#[trigger] most[j]).raw_length == index(most[j].id) by {
            assert(most[j] == bs[j]);
        }
        lemma_with_blobs(index, w, most);
        let u = with_blobs(w, most);
        let v = with_blobs(w, bs);
        assert(b.raw_length == index(b.id)) by {
            assert(bs[bs.len() - 1] == b);
        }
        if !u.blobs.contains(b.id) {
            lemma_push_list(u.list, (b.id, BlobType::Data));
            assert(!u.list.contains((b.id, BlobType::Data)));
            assert(v.list.drop_last() =~= u.list);
        }
        assert forall|x: ID| #[trigger] v.blobs.contains(x) <==> w.blobs.contains(x) || among(bs, x) by {
            if among(most, x) {
                let j = choose|j: int| 0 <= j < most.len() && (#[trigger] most[j]).id == x;
                assert(bs[j].id == x);
            }
            if among(bs, x) {
                let j = choose|j: int| 0 <= j < bs.len() && (#[trigger] bs[j]).id == x;
                if j < most.len() {
                    assert(most[j].id == x);
                }
            }
            if x == b.id {
                assert(bs[bs.len() - 1].id == x);
            }
        }
    }
}

proof fn lemma_with_nodes(index: spec_fn(ID) -> Option<u32>, w: Walk, ns: Seq<TreeNode>)
    requires
        listed_once(w),
        lengths_known(index, ns),
    ensures
        ({
            let v = with_nodes(w, ns);
            &&& listed_once(v)
            &&& v.trees == w.trees
            &&& v.total - lengths(index, v.list) == w.total - lengths(index, w.list)
            &&& forall|x: ID| #[trigger] v.stack.contains(x) <==> w.stack.contains(x) || has_subtree(ns, x)
            &&& forall|x: ID| #[trigger] v.blobs.contains(x) <==> w.blobs.contains(x) || has_blob(ns, x)
        }),
    decreases ns.len(),
{
    if ns.len() > 0 {
        let most = ns.drop_last();
        let n = ns.last();
        assert forall|i: int, j: int| 0 <= i < most.len() && 0 <= j < most[i].pieces().len() implies (
        #[trigger] most[i].pieces()[j]).raw_length == index(most[i].pieces()[j].id) by {
            assert(most[i] == ns[i]);
            assert(ns[i].pieces()[j].raw_length == index(ns[i].pieces()[j].id));
        }
        lemma_with_nodes(index, w, most);
        let u = with_nodes(w, most);
        let s = with_subtree(u, n.tree);
        if let Some(id) = n.tree {
            lemma_push_stack(u.stack, id);
        }
        let bs = n.pieces();
        assert forall|j: int| 0 <= j < bs.len() implies (#[trigger] bs[j]).raw_length == index(bs[j].id) by {
            assert(ns[ns.len() - 1].pieces()[j].raw_length == index(ns[ns.len() - 1].pieces()[j].id));
        }
        lemma_with_blobs(index, s, bs);
        let v = with_nodes(w, ns);
        assert forall|x: ID| has_subtree(ns, x) <==> has_subtree(most, x) || n.tree == Some(x) by {
            if has_subtree(most, x) {
                let i = choose|i: int| 0 <= i < most.len() && (#[trigger] most[i]).tree == Some(x);
                assert(ns[i].tree == Some(x));
            }
            if has_subtree(ns, x) {
                let i = choose|i: int| 0 <= i < ns.len() && (#[trigger] ns[i]).tree == Some(x);
                if i < most.len() {
                    assert(most[i].tree == Some(x));
                }
            }
            if n.tree == Some(x) {
                assert(ns[ns.len() - 1].tree == Some(x));
            }
        }
        assert forall|x: ID| has_blob(ns, x) <==> has_blob(most, x) || among(bs, x) by {
            if has_blob(most, x) {
                let i = choose|i: int| 0 <= i < most.len() && among((#[trigger] most[i]).pieces(), x);
                assert(among(ns[i].pieces(), x));
            }
            if has_blob(ns, x) {
                let i = choose|i: int| 0 <= i < ns.len() && among((#[trigger] ns[i]).pieces(), x);
                if i < most.len() {
                    assert(among(most[i].pieces(), x));
                }
            }
            if among(bs, x) {
                assert(among(ns[ns.len() - 1].pieces(), x));
            }
        }
    }
}

proof fn lemma_one_further(repo: spec_fn(ID) -> Seq<TreeNode>, root: ID, x: ID, y: ID)
    requires
        reachable(repo, root, x),
        has_subtree(repo(x), y),
    ensures
        reachable(repo, root, y),
{
    let path = choose|path: Seq<ID>| leads(repo, path, root, x);
    let longer = path.push(y);
    assert forall|i: int| 0 <= i < longer.len() - 1 implies has_subtree(
        repo(#[trigger] longer[i]),
        longer[i + 1],
    ) by {
        assert(longer[i] == path[i]);
        if i < path.len() - 1 {
            assert(longer[i + 1] == path[i + 1]);
        }
    }
    assert(leads(repo, longer, root, y));
}

/// Every round keeps what holds on the way.
pub proof fn law_rounds_keep_their_word(
    repo: spec_fn(ID) -> Seq<TreeNode>,
    index: spec_fn(ID) -> Option<u32>,
    root: ID,
    n: nat,
)
    requires
        forall|x: ID| lengths_known(index, #[trigger] repo(x)),
    ensures
        on_the_way(repo, index, root, rounds(repo, index, root, n)),
    decreases n,
{
    if n == 0 {
        let w = walk_from(root);
        assert(w.stack[0] == root);
        assert(leads(repo, seq![root], root, root));
    } else {
        law_rounds_keep_their_word(repo, index, root, (n - 1) as nat);
        lemma_round(repo, index, root, rounds(repo, index, root, (n - 1) as nat));
    }
}

proof fn lemma_round(repo: spec_fn(ID) -> Seq<TreeNode>, index: spec_fn(ID) -> Option<u32>, root: ID, w: Walk)
    requires
        on_the_way(repo, index, root, w),
        forall|x: ID| lengths_known(index, #[trigger] repo(x)),
    ensures
        on_the_way(repo, index, root, round(repo, index, w)),
{
    lemma_take_tree(index, w);
    let (t, r) = take_tree(w);
    match r {
        None => {
            assert forall|x: ID, y: ID|
                #![trigger t.trees.contains(x), has_subtree(repo(x), y)]
                t.trees.contains(x) && has_subtree(repo(x), y) implies t.trees.contains(y) || t.stack.contains(y) by {
                assert(w.trees.contains(x));
            }
            assert forall|b: ID| #[trigger] t.blobs.contains(b) implies exists|x: ID| #[trigger]
                t.trees.contains(x) && has_blob(repo(x), b) by {
                assert(w.blobs.contains(b));
            }
        },
        Some(id) => {
            let ns = repo(id);
            let c = Walk { total: t.total + length(index(id)), ..t };
            lemma_with_nodes(index, c, ns);
            let v = with_tree(t, index(id), ns);
            assert(v == round(repo, index, w));
            assert(reachable(repo, root, id));
            assert forall|x: ID| #[trigger] v.stack.contains(x) implies reachable(repo, root, x) by {
                if has_subtree(ns, x) {
                    lemma_one_further(repo, root, id, x);
                } else {
                    assert(c.stack.contains(x));
                    assert(t.stack.contains(x));
                }
            }
            assert forall|x: ID, y: ID|
                #![trigger v.trees.contains(x), has_subtree(repo(x), y)]
                v.trees.contains(x) && has_subtree(repo(x), y) implies v.trees.contains(y) || v.stack.contains(y) by {
                if x != id {
                    assert(w.trees.contains(x));
                    assert(w.trees.contains(y) || w.stack.contains(y));
                    if w.stack.contains(y) {
                        assert(t.stack.contains(y) || t.trees.contains(y));
                    }
                }
            }
            assert forall|b: ID| #[trigger] v.blobs.contains(b) implies exists|x: ID| #[trigger]
                v.trees.contains(x) && has_blob(repo(x), b) by {
                if has_blob(ns, b) {
                    assert(v.trees.contains(id));
                } else {
                    assert(w.blobs.contains(b));
                    let x = choose|x: ID| #[trigger] w.trees.contains(x) && has_blob(repo(x), b);
                    assert(v.trees.contains(x));
                }
            }
            if w.stack.contains(root) {
                assert(t.stack.contains(root) || t.trees.contains(root));
            }
        },
    }
}

/// When a walk is over, it has listed the directories that can be reached from
/// the root and the pieces of the files in them, all of these, nothing else, and
/// each once; and its length is that of everything on the list.
pub proof fn law_walk_finds_what_is_reachable(
    repo: spec_fn(ID) -> Seq<TreeNode>,
    index: spec_fn(ID) -> Option<u32>,
    root: ID,
    n: nat,
)
    requires
        forall|x: ID| lengths_known(index, #[trigger] repo(x)),
        take_tree(rounds(repo, index, root, n)).1 is None,
    ensures
        ({
            let w = rounds(repo, index, root, n);
            &&& w.list.no_duplicates()
            &&& forall|x: ID| #[trigger] w.list.contains((x, BlobType::Tree)) <==> reachable(repo, root, x)
            &&& forall|b: ID| #[trigger]
                w.list.contains((b, BlobType::Data)) <==> exists|x: ID|
                    reachable(repo, root, x) && #[trigger] has_blob(repo(x), b)
            &&& w.total == lengths(index, w.list)
        }),
{
    law_rounds_keep_their_word(repo, index, root, n);
    let w = rounds(repo, index, root, n);
    lemma_take_tree(index, w);
    let t = take_tree(w).0;
    assert forall|x: ID| w.stack.contains(x) implies w.trees.contains(x) by {
        assert(t.stack.contains(x) || t.trees.contains(x));
    }
    assert forall|x: ID| reachable(repo, root, x) implies w.trees.contains(x) by {
        let path = choose|path: Seq<ID>| leads(repo, path, root, x);
        lemma_path_is_visited(repo, index, root, w, path, path.len() - 1);
    }
    assert forall|b: ID| #[trigger] w.list.contains((b, BlobType::Data)) <==> exists|x: ID|
        reachable(repo, root, x) && #[trigger] has_blob(repo(x), b) by {
        if w.blobs.contains(b) {
            let x = choose|x: ID| #[trigger] w.trees.contains(x) && has_blob(repo(x), b);
            assert(reachable(repo, root, x) && has_blob(repo(x), b));
        }
        if exists|x: ID| reachable(repo, root, x) && #[trigger] has_blob(repo(x), b) {
            let x = choose|x: ID| reachable(repo, root, x) && #[trigger] has_blob(repo(x), b);
            assert(w.trees.contains(x));
        }
    }
}

proof fn lemma_path_is_visited(
    repo: spec_fn(ID) -> Seq<TreeNode>,
    index: spec_fn(ID) -> Option<u32>,
    root: ID,
    w: Walk,
    path: Seq<ID>,
    i: int,
)
    requires
        on_the_way(repo, index, root, w),
        forall|x: ID| w.stack.contains(x) ==> w.trees.contains(x),
        leads(repo, path, root, path.last()),
        0 <= i < path.len(),
    ensures
        w.trees.contains(path[i]),
    decreases i,
{
    if i > 0 {
        lemma_path_is_visited(repo, index, root, w, path, i - 1);
        assert(has_subtree(repo(path[i - 1]), path[i - 1 + 1]));
    }
}

proof fn lemma_headway(repo: spec_fn(ID) -> Seq<TreeNode>, index: spec_fn(ID) -> Option<u32>, root: ID, n: nat)
    requires
        forall|x: ID| lengths_known(index, #[trigger] repo(x)),
    ensures
        rounds(repo, index, root, n).trees.finite(),
        take_tree(rounds(repo, index, root, n)).1 is Some ==> rounds(repo, index, root, n).trees.len() == n,
    decreases n,
{
    if n > 0 {
        let before = rounds(repo, index, root, (n - 1) as nat);
        lemma_headway(repo, index, root, (n - 1) as nat);
        law_rounds_keep_their_word(repo, index, root, (n - 1) as nat);
        lemma_take_tree(index, before);
        let (t, r) = take_tree(before);
        if let Some(id) = r {
            let c = Walk { total: t.total + length(index(id)), ..t };
            lemma_with_nodes(index, c, repo(id));
        }
    }
}

/// Where no more than a finite number of directories can be reached, a walk is over
/// after as many rounds.
pub proof fn law_walk_ends(
    repo: spec_fn(ID) -> Seq<TreeNode>,
    index: spec_fn(ID) -> Option<u32>,
    root: ID,
    all: Set<ID>,
)
    requires
        forall|x: ID| lengths_known(index, #[trigger] repo(x)),
        all.finite(),
        forall|x: ID| reachable(repo, root, x) ==> #[trigger] all.contains(x),
    ensures
        take_tree(rounds(repo, index, root, all.len())).1 is None,
{
    let w = rounds(repo, index, root, all.len());
    lemma_headway(repo, index, root, all.len());
    law_rounds_keep_their_word(repo, index, root, all.len());
    lemma_take_tree(index, w);
    if let Some(id) = take_tree(w).1 {
        assert(w.trees.subset_of(all));
        vstd::set_lib::lemma_subset_equality(w.trees, all);
        assert(w.stack.contains(id));
        assert(all.contains(id));
    }
}

/// No directory is loaded twice: the one that is taken next has not been taken
/// before.
pub proof fn law_no_tree_is_loaded_twice(w: Walk, id: ID)
    requires
        take_tree(w).1 == Some(id),
    ensures
        !w.trees.contains(id),
        take_tree(w).0.trees == w.trees.insert(id),
    decreases w.stack.len(),
{
    if w.trees.contains(w.stack.last()) {
        law_no_tree_is_loaded_twice(Walk { stack: w.stack.drop_last(), ..w }, id);
    }
}

/// What a directory has: the directories that are its entries, and the pieces of the
/// files that are. A length that is not known counts as nothing, and the lengths of two
/// lists, one behind the other, add up.
pub proof fn law_what_a_directory_has(
    ns: Seq<TreeNode>,
    id: ID,
    index: spec_fn(ID) -> Option<u32>,
    a: Seq<(ID, BlobType)>,
    b: Seq<(ID, BlobType)>,
    e: (ID, BlobType),
    n: u32,
)
    ensures
        has_subtree(ns, id) <==> exists|i: int| 0 <= i < ns.len() && (#[trigger] ns[i]).tree == Some(id),
        has_blob(ns, id) <==> exists|i: int, j: int|
            0 <= i < ns.len() && ns[i].blobs is Some && 0 <= j < ns[i].blobs.unwrap()@.len() && (
            #[trigger] ns[i].blobs.unwrap()@[j]).id == id,
        length(None) == 0,
        length(Some(n)) == n,
        lengths(index, seq![e]) == length(index(e.0)),
        lengths(index, a + b) == lengths(index, a) + lengths(index, b),
    decreases b.len(),
{
    if has_blob(ns, id) {
        let i = choose|i: int| 0 <= i < ns.len() && among((#[trigger] ns[i]).pieces(), id);
        let bs = ns[i].pieces();
        let j = choose|j: int| 0 <= j < bs.len() && (#[trigger] bs[j]).id == id;
        assert(ns[i].blobs is Some && ns[i].blobs.unwrap()@[j].id == id);
    }
    if exists|i: int, j: int|
        0 <= i < ns.len() && ns[i].blobs is Some && 0 <= j < ns[i].blobs.unwrap()@.len() && (
        #[trigger] ns[i].blobs.unwrap()@[j]).id == id {
        let (i, j) = choose|i: int, j: int|
            0 <= i < ns.len() && ns[i].blobs is Some && 0 <= j < ns[i].blobs.unwrap()@.len() && (
            #[trigger] ns[i].blobs.unwrap()@[j]).id == id;
        assert(ns[i].pieces()[j].id == id);
        assert(among(ns[i].pieces(), id));
    }
    let none = Seq::<(ID, BlobType)>::empty();
    reveal_with_fuel(lengths, 2);
    assert(seq![e].drop_last() =~= none);
    if b.len() == 0 {
        assert(a + b =~= a);
    } else {
        law_what_a_directory_has(ns, id, index, a, b.drop_last(), e, n);
        assert((a + b).drop_last() =~= a + b.drop_last());
        assert((a + b).last() == b.last());
    }
}

/// What can be reached: the directory itself, what a directory that can be reached has
/// as an entry, and nothing else.
pub proof fn law_what_can_be_reached(repo: spec_fn(ID) -> Seq<TreeNode>, from: ID, x: ID, y: ID)
    ensures
        reachable(repo, from, from),
        reachable(repo, from, x) && has_subtree(repo(x), y) ==> reachable(repo, from, y),
        reachable(repo, from, y) && y != from ==> exists|z: ID|
            reachable(repo, from, z) && #[trigger] has_subtree(repo(z), y),
{
    assert(leads(repo, seq![from], from, from));
    if reachable(repo, from, x) && has_subtree(repo(x), y) {
        lemma_one_further(repo, from, x, y);
    }
    if reachable(repo, from, y) && y != from {
        let path = choose|path: Seq<ID>| leads(repo, path, from, y);
        assert(path.len() > 1);
        let most = path.drop_last();
        let z = most.last();
        assert(z == path[path.len() - 2]);
        assert(has_subtree(repo(path[path.len() - 2]), path[path.len() - 2 + 1]));
        assert forall|i: int| 0 <= i < most.len() - 1 implies has_subtree(repo(#[trigger] most[i]), most[i + 1]) by {
            assert(most[i] == path[i] && most[i + 1] == path[i + 1]);
        }
        assert(leads(repo, most, from, z));
    }
}

/// How a walk goes on: the directory that was found last is the next to be loaded,
/// unless it has been; what stands on the list stays where it is; and a directory is
/// listed before what is in it.
pub proof fn law_the_last_found_is_next(w: Walk, id: ID, raw_length: Option<u32>, ns: Seq<TreeNode>)
    ensures
        w.stack.len() > 0 && !w.trees.contains(w.stack.last()) ==> take_tree(w).1 == Some(w.stack.last())
            && take_tree(w).0.list == w.list.push((w.stack.last(), BlobType::Tree)) && take_tree(w).0.stack
            == w.stack.drop_last(),
        w.stack.len() == 0 ==> take_tree(w) == (w, None::<ID>),
        w.list.is_prefix_of(with_tree(w, raw_length, ns).list),
        w.stack.is_prefix_of(with_tree(w, raw_length, ns).stack),
        ns.len() > 0 && ns.last().tree == Some(id) ==> with_tree(w, raw_length, ns).stack.last() == id,
        walk_from(id).stack == seq![id] && walk_from(id).list.len() == 0 && walk_from(id).total == 0,
        forall|x: ID| !(#[trigger] walk_from(id).trees.contains(x)) && !walk_from(id).blobs.contains(x),
{
    let c = Walk { total: w.total + length(raw_length), ..w };
    lemma_nodes_only_add(c, ns);
    if ns.len() > 0 {
        let u = with_subtree(with_nodes(c, ns.drop_last()), ns.last().tree);
        lemma_blobs_only_add(u, ns.last().pieces());
    }
}

proof fn lemma_blobs_only_add(w: Walk, bs: Seq<BlobRef>)
    ensures
        with_blobs(w, bs).stack == w.stack,
        w.list.is_prefix_of(with_blobs(w, bs).list),
    decreases bs.len(),
{
    if bs.len() > 0 {
        lemma_blobs_only_add(w, bs.drop_last());
    }
}

proof fn lemma_nodes_only_add(w: Walk, ns: Seq<TreeNode>)
    ensures
        w.stack.is_prefix_of(with_nodes(w, ns).stack),
        w.list.is_prefix_of(with_nodes(w, ns).list),
    decreases ns.len(),
{
    if ns.len() > 0 {
        lemma_nodes_only_add(w, ns.drop_last());
        let u = with_subtree(with_nodes(w, ns.drop_last()), ns.last().tree);
        lemma_blobs_only_add(u, ns.last().pieces());
    }
}

} // verus!
