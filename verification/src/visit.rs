//! Walking a directory tree.
//!
//! The walk keeps a stack of directories still to be listed. Each step takes
//! the most recently found directory off the stack; its listing is split
//! into the files, which the walk yields in listing order, and the
//! subdirectories, which go onto the stack in listing order. The walk ends
//! when the stack is empty. Reading directories and their entries is left to
//! the caller, who hands each listing back as a sequence of [`ListedEntry`].
//!
//! Over a finite tree of listings ([`DirTree`]), a walk answered at each
//! step with the listing of the directory taken ends after one step per
//! directory and yields every file of the tree exactly once
//! ([`lemma_walk_yields_each_file_once`], with [`lemma_walk_step`] tying each
//! step to `next_dir` and `record_listing`).
use vstd::prelude::*;

verus! {

/// One entry of a directory listing: the entry itself, its path, and
/// whether it is a directory.
pub struct ListedEntry<E, P> {
    pub entry: E,
    pub path: P,
    pub is_dir: bool,
}

/// The files of a listing, in listing order.
pub open spec fn listing_files<E, P>(entries: Seq<ListedEntry<E, P>>) -> Seq<E>
    decreases entries.len(),
{
    if entries.len() == 0 {
        Seq::empty()
    } else {
        let rest = listing_files(entries.drop_last());
        if entries.last().is_dir {
            rest
        } else {
            rest.push(entries.last().entry)
        }
    }
}

/// The paths of the subdirectories of a listing, in listing order.
pub open spec fn listing_dirs<E, P>(entries: Seq<ListedEntry<E, P>>) -> Seq<P>
    decreases entries.len(),
{
    if entries.len() == 0 {
        Seq::empty()
    } else {
        let rest = listing_dirs(entries.drop_last());
        if entries.last().is_dir {
            rest.push(entries.last().path)
        } else {
            rest
        }
    }
}

/// The state of a walk: the directories still to be listed, the one to be
/// listed next last.
pub struct DirWalker<P> {
    pending: Vec<P>,
}

impl<P> View for DirWalker<P> {
    type V = Seq<P>;

    closed spec fn view(&self) -> Seq<P> {
        self.pending@
    }
}

impl<P> DirWalker<P> {
    /// A walk that starts at `root`.
    pub fn new(root: P) -> (res: Self)
        ensures
            res@ == seq![root],
    {
        let mut pending = Vec::new();
        pending.push(root);
        DirWalker { pending }
    }

    /// Takes the directory to be listed next: the one found last. `None`
    /// when the walk is over.
    pub fn next_dir(&mut self) -> (res: Option<P>)
        ensures
            old(self)@.len() == 0 ==> res is None && final(self)@ == old(self)@,
            old(self)@.len() > 0 ==> res == Some(old(self)@.last())
                && final(self)@ == old(self)@.drop_last(),
    {
        self.pending.pop()
    }

    /// Ends the listing of a directory whose reading may have failed part
    /// way. The subdirectories of the entries read go onto the stack in
    /// listing order either way; the directory yields its files in listing
    /// order when reading succeeded, and only the error when it failed.
    pub fn finish_listing<E, F>(&mut self, entries: Vec<ListedEntry<E, P>>, failure: Option<F>) -> (res: Result<Vec<E>, F>)
        ensures
            final(self)@ == old(self)@ + listing_dirs(entries@),
            match failure {
                Some(err) => res == Err::<Vec<E>, F>(err),
                None => res matches Ok(files) && files@ == listing_files(entries@),
            },
    {
        let files = self.record_listing(entries);
        match failure {
            Some(err) => Err(err),
            None => Ok(files),
        }
    }

    /// Takes in a directory listing: its subdirectories go onto the stack in
    /// listing order, and its files come back in listing order.
    pub fn record_listing<E>(&mut self, entries: Vec<ListedEntry<E, P>>) -> (files: Vec<E>)
        ensures
            files@ == listing_files(entries@),
            final(self)@ == old(self)@ + listing_dirs(entries@),
            files@ == entries@.filter(|e: ListedEntry<E, P>| !e.is_dir).map_values(
                |e: ListedEntry<E, P>| e.entry,
            ),
            final(self)@ == old(self)@ + entries@.filter(|e: ListedEntry<E, P>| e.is_dir).map_values(
                |e: ListedEntry<E, P>| e.path,
            ),
    {
        proof {
            lemma_listing_is_filter(entries@);
        }
        let ghost all = entries@;
        let mut files: Vec<E> = Vec::new();
        let mut rest = entries;
        let mut taken: Vec<ListedEntry<E, P>> = Vec::new();
        // `rest` is consumed from the back; `taken` holds what was taken,
        // last-taken last, so that `taken` reversed is a suffix of `all`.
        while rest.len() > 0
            invariant
                all == rest@ + taken@.reverse(),
                files@.len() == 0,
                self@ == old(self)@,
            decreases rest.len(),
        {
            let e = rest.pop().unwrap();
            proof {
                assert(all =~= rest@ + (taken@.push(e)).reverse());
            }
            taken.push(e);
        }
        assert(all =~= taken@.reverse());
        let ghost n = taken@.len();
        while taken.len() > 0
            invariant
                n == all.len(),
                taken@.len() <= n,
                forall|k: int| 0 <= k < taken@.len() ==> #[trigger] taken@[k] == all[n - 1 - k],
                files@ == listing_files(all.take(n - taken@.len())),
                self@ == old(self)@ + listing_dirs(all.take(n - taken@.len())),
            decreases taken.len(),
        {
            let ghost done = n - taken@.len();
            let e = taken.pop().unwrap();
            proof {
                assert(e == all[done]);
                assert(all.take(done + 1).drop_last() =~= all.take(done));
                assert(all.take(done + 1).last() == e);
            }
            if e.is_dir {
                self.pending.push(e.path);
                proof {
                    assert(old(self)@ + listing_dirs(all.take(done)).push(e.path)
                        =~= (old(self)@ + listing_dirs(all.take(done))).push(e.path));
                }
            } else {
                files.push(e.entry);
            }
        }
        assert(all.take(n as int) =~= all);
        files
    }
}

/// The files of a listing are exactly its entries that are not
/// directories, in listing order, and the paths put on the stack are exactly
/// those of its entries that are directories, in listing order.
pub proof fn lemma_listing_is_filter<E, P>(entries: Seq<ListedEntry<E, P>>)
    ensures
        listing_files(entries) == entries.filter(|e: ListedEntry<E, P>| !e.is_dir).map_values(
            |e: ListedEntry<E, P>| e.entry,
        ),
        listing_dirs(entries) == entries.filter(|e: ListedEntry<E, P>| e.is_dir).map_values(
            |e: ListedEntry<E, P>| e.path,
        ),
    decreases entries.len(),
{
    reveal_with_fuel(Seq::filter, 1);
    if entries.len() > 0 {
        lemma_listing_is_filter(entries.drop_last());
        let files_before = entries.drop_last().filter(|e: ListedEntry<E, P>| !e.is_dir);
        let dirs_before = entries.drop_last().filter(|e: ListedEntry<E, P>| e.is_dir);
        let last = entries.last();
        assert(files_before.push(last).map_values(|e: ListedEntry<E, P>| e.entry)
            =~= files_before.map_values(|e: ListedEntry<E, P>| e.entry).push(last.entry));
        assert(dirs_before.push(last).map_values(|e: ListedEntry<E, P>| e.path)
            =~= dirs_before.map_values(|e: ListedEntry<E, P>| e.path).push(last.path));
    } else {
        assert(listing_files(entries) =~= entries.filter(|e: ListedEntry<E, P>| !e.is_dir).map_values(
            |e: ListedEntry<E, P>| e.entry,
        ));
        assert(listing_dirs(entries) =~= entries.filter(|e: ListedEntry<E, P>| e.is_dir).map_values(
            |e: ListedEntry<E, P>| e.path,
        ));
    }
}

/// A directory entry is never yielded as a file and its path always goes on
/// the stack; a file entry is yielded and its path never goes on the stack.
pub proof fn lemma_listing_entry_placement<E, P>(entries: Seq<ListedEntry<E, P>>, i: int)
    requires
        0 <= i < entries.len(),
    ensures
        entries[i].is_dir ==> listing_dirs(entries).contains(entries[i].path),
        !entries[i].is_dir ==> listing_files(entries).contains(entries[i].entry),
        listing_files(entries).len() + listing_dirs(entries).len() == entries.len(),
    decreases entries.len(),
{
    lemma_listing_partition(entries);
    if i < entries.len() - 1 {
        lemma_listing_entry_placement(entries.drop_last(), i);
        assert(entries.drop_last()[i] == entries[i]);
        let fd = listing_files(entries.drop_last());
        let dd = listing_dirs(entries.drop_last());
        if entries[i].is_dir {
            let k = choose|k: int| 0 <= k < dd.len() && dd[k] == entries[i].path;
            if entries.last().is_dir {
                assert(dd.push(entries.last().path)[k] == entries[i].path);
            }
        } else {
            let k = choose|k: int| 0 <= k < fd.len() && fd[k] == entries[i].entry;
            if !entries.last().is_dir {
                assert(fd.push(entries.last().entry)[k] == entries[i].entry);
            }
        }
    } else {
        let fd = listing_files(entries.drop_last());
        let dd = listing_dirs(entries.drop_last());
        if entries[i].is_dir {
            assert(dd.push(entries.last().path)[dd.len() as int] == entries[i].path);
        } else {
            assert(fd.push(entries.last().entry)[fd.len() as int] == entries[i].entry);
        }
    }
}

/// Every entry of a listing lands in exactly one place: each directory on
/// the stack, each file among the yielded files.
pub proof fn lemma_listing_partition<E, P>(entries: Seq<ListedEntry<E, P>>)
    ensures
        listing_files(entries).len() + listing_dirs(entries).len() == entries.len(),
    decreases entries.len(),
{
    if entries.len() > 0 {
        lemma_listing_partition(entries.drop_last());
    }
}

/// A finite directory tree as the caller would list it: the path of a
/// directory, its listing, and, for each directory of the listing in listing
/// order, the tree below it.
pub struct DirTree<E, P> {
    pub path: P,
    pub entries: Seq<ListedEntry<E, P>>,
    pub subdirs: Seq<DirTree<E, P>>,
}

/// The paths of a sequence of trees.
pub open spec fn tree_paths<E, P>(trees: Seq<DirTree<E, P>>) -> Seq<P> {
    trees.map_values(|t: DirTree<E, P>| t.path)
}

/// The number of directories in a tree.
pub open spec fn tree_size<E, P>(t: DirTree<E, P>) -> nat
    decreases t, 0nat,
{
    1 + forest_size(t.subdirs)
}

/// The number of directories in a sequence of trees.
pub open spec fn forest_size<E, P>(ts: Seq<DirTree<E, P>>) -> nat
    decreases ts, 1nat,
{
    if ts.len() == 0 {
        0
    } else {
        forest_size(ts.subrange(0, ts.len() - 1)) + tree_size(ts[ts.len() - 1])
    }
}

/// Each subtree sits under a directory entry of its parent's listing, in
/// listing order.
pub open spec fn tree_wf<E, P>(t: DirTree<E, P>) -> bool
    decreases t, 0nat,
{
    &&& tree_paths(t.subdirs) == listing_dirs(t.entries)
    &&& forest_wf(t.subdirs)
}

/// Every tree of the sequence is well formed.
pub open spec fn forest_wf<E, P>(ts: Seq<DirTree<E, P>>) -> bool
    decreases ts, 1nat,
{
    if ts.len() == 0 {
        true
    } else {
        forest_wf(ts.subrange(0, ts.len() - 1)) && tree_wf(ts[ts.len() - 1])
    }
}

/// The files of a tree in listing order: the files of its listing, then
/// those of each subtree in turn.
pub open spec fn tree_files<E, P>(t: DirTree<E, P>) -> Seq<E>
    decreases t, 0nat,
{
    listing_files(t.entries) + forest_files(t.subdirs)
}

/// The files of a sequence of trees, in order.
pub open spec fn forest_files<E, P>(ts: Seq<DirTree<E, P>>) -> Seq<E>
    decreases ts, 1nat,
{
    if ts.len() == 0 {
        Seq::empty()
    } else {
        forest_files(ts.subrange(0, ts.len() - 1)) + tree_files(ts[ts.len() - 1])
    }
}

/// The files of a tree in the order the walk yields them: the files of its
/// listing, then each subtree, the last listed first.
pub open spec fn walk_files<E, P>(t: DirTree<E, P>) -> Seq<E>
    decreases t, 0nat,
{
    listing_files(t.entries) + stack_files(t.subdirs)
}

/// The files of a stack of trees in the order the walk yields them: the top
/// (last) tree first.
pub open spec fn stack_files<E, P>(ts: Seq<DirTree<E, P>>) -> Seq<E>
    decreases ts, 1nat,
{
    if ts.len() == 0 {
        Seq::empty()
    } else {
        walk_files(ts[ts.len() - 1]) + stack_files(ts.subrange(0, ts.len() - 1))
    }
}

/// `n` steps of the walk on a stack of trees: each step takes the top tree,
/// yields the files of its listing and puts its subtrees on the stack. The
/// result is what was yielded and the stack that is left.
pub open spec fn walk_steps<E, P>(stack: Seq<DirTree<E, P>>, n: nat) -> (Seq<E>, Seq<DirTree<E, P>>)
    decreases n,
{
    if n == 0 || stack.len() == 0 {
        (Seq::empty(), stack)
    } else {
        let top = stack.last();
        let rest = walk_steps(stack.drop_last() + top.subdirs, (n - 1) as nat);
        (listing_files(top.entries) + rest.0, rest.1)
    }
}

/// One step of the walk is what `next_dir` and `record_listing` do to the
/// paths when the caller answers with the listing of the directory taken:
/// the path taken is the top tree's, the files are its listing's, the stack
/// of paths left is that of the trees left, and those trees are well formed
/// again.
pub proof fn lemma_walk_step<E, P>(stack: Seq<DirTree<E, P>>)
    requires
        stack.len() > 0,
        forest_wf(stack),
    ensures
        forest_wf(walk_steps(stack, 1).1),
        tree_paths(stack).last() == stack.last().path,
        walk_steps(stack, 1).0 == listing_files(stack.last().entries),
        tree_paths(stack).drop_last() + listing_dirs(stack.last().entries)
            == tree_paths(walk_steps(stack, 1).1),
{
    let top = stack.last();
    let next = stack.drop_last() + top.subdirs;
    assert(stack.drop_last() =~= stack.subrange(0, stack.len() - 1));
    assert(tree_wf(top));
    lemma_forest_wf_concat(stack.drop_last(), top.subdirs);
    assert(walk_steps(next, 0) == (Seq::<E>::empty(), next));
    assert(listing_files(top.entries) + Seq::<E>::empty() =~= listing_files(top.entries));
    assert(tree_paths(next) =~= tree_paths(stack).drop_last() + tree_paths(top.subdirs));
}

/// Two sequences of well-formed trees make one.
proof fn lemma_forest_wf_concat<E, P>(a: Seq<DirTree<E, P>>, b: Seq<DirTree<E, P>>)
    requires
        forest_wf(a),
        forest_wf(b),
    ensures
        forest_wf(a + b),
    decreases b.len(),
{
    if b.len() == 0 {
        assert(a + b =~= a);
    } else {
        let b0 = b.subrange(0, b.len() - 1);
        lemma_forest_wf_concat(a, b0);
        assert((a + b).subrange(0, (a + b).len() - 1) =~= a + b0);
        assert((a + b)[(a + b).len() - 1] == b[b.len() - 1]);
    }
}

/// Steps compose: `a` steps and then `b` more are `a + b` steps.
proof fn lemma_walk_steps_compose<E, P>(stack: Seq<DirTree<E, P>>, a: nat, b: nat)
    ensures
        walk_steps(stack, a + b).0 == walk_steps(stack, a).0 + walk_steps(walk_steps(stack, a).1, b).0,
        walk_steps(stack, a + b).1 == walk_steps(walk_steps(stack, a).1, b).1,
    decreases a,
{
    if a == 0 {
        assert(Seq::<E>::empty() + walk_steps(stack, b).0 =~= walk_steps(stack, b).0);
    } else if stack.len() == 0 {
        assert(walk_steps(stack, a + b) == (Seq::<E>::empty(), stack));
        assert(walk_steps(stack, b) == (Seq::<E>::empty(), stack));
        assert(Seq::<E>::empty() + Seq::<E>::empty() =~= Seq::<E>::empty());
    } else {
        let top = stack.last();
        let next = stack.drop_last() + top.subdirs;
        lemma_walk_steps_compose(next, (a - 1) as nat, b);
        assert((a + b - 1) as nat == (a - 1) as nat + b);
        assert(listing_files(top.entries) + walk_steps(next, (a - 1) as nat).0
            + walk_steps(walk_steps(next, (a - 1) as nat).1, b).0
            =~= listing_files(top.entries) + (walk_steps(next, (a - 1) as nat).0
            + walk_steps(walk_steps(next, (a - 1) as nat).1, b).0));
    }
}

/// Walking the trees on top of a stack takes one step per directory in
/// them, yields their files in walk order, and leaves the stack below them
/// as it was.
pub proof fn lemma_walk_forest<E, P>(below: Seq<DirTree<E, P>>, top: Seq<DirTree<E, P>>)
    ensures
        walk_steps(below + top, forest_size(top)).0 == stack_files(top),
        walk_steps(below + top, forest_size(top)).1 == below,
    decreases forest_size(top),
{
    if top.len() == 0 {
        assert(below + top =~= below);
    } else {
        let t = top.last();
        let rest = top.subrange(0, top.len() - 1);
        assert(top.drop_last() =~= rest);
        lemma_forest_size_last(top);
        let stack = below + top;
        assert(stack.last() == t);
        assert(stack.drop_last() =~= below + rest);
        let after_one = (below + rest) + t.subdirs;
        // the first step
        lemma_walk_steps_compose(stack, 1, forest_size(t.subdirs) + forest_size(rest));
        assert(walk_steps(after_one, 0) == (Seq::<E>::empty(), after_one));
        assert(walk_steps(stack, 1).0 =~= listing_files(t.entries));
        assert(walk_steps(stack, 1).1 == after_one);
        // the subtrees of `t`
        lemma_walk_steps_compose(after_one, forest_size(t.subdirs), forest_size(rest));
        lemma_walk_forest(below + rest, t.subdirs);
        // the rest of `top`
        lemma_walk_forest(below, rest);
        assert(1 + (forest_size(t.subdirs) + forest_size(rest)) == forest_size(top));
        assert(listing_files(t.entries) + (stack_files(t.subdirs) + stack_files(rest))
            =~= walk_files(t) + stack_files(rest));
    }
}

/// The size of a non-empty sequence of trees, split at its last tree.
proof fn lemma_forest_size_last<E, P>(ts: Seq<DirTree<E, P>>)
    requires
        ts.len() > 0,
    ensures
        forest_size(ts) == forest_size(ts.subrange(0, ts.len() - 1)) + 1 + forest_size(ts.last().subdirs),
{
    assert(tree_size(ts[ts.len() - 1]) == 1 + forest_size(ts[ts.len() - 1].subdirs));
}

/// The walk yields each file of a stack of trees exactly as often as the
/// trees hold it.
pub proof fn lemma_stack_files_permutation<E, P>(ts: Seq<DirTree<E, P>>)
    ensures
        stack_files(ts).to_multiset() == forest_files(ts).to_multiset(),
    decreases ts, 1nat,
{
    broadcast use vstd::seq_lib::lemma_multiset_commutative;
    if ts.len() > 0 {
        let rest = ts.subrange(0, ts.len() - 1);
        let t = ts[ts.len() - 1];
        lemma_stack_files_permutation(rest);
        lemma_walk_files_permutation(t);
        assert(stack_files(ts).to_multiset() =~= walk_files(t).to_multiset().add(stack_files(rest).to_multiset()));
        assert(forest_files(ts).to_multiset() =~= forest_files(rest).to_multiset().add(tree_files(t).to_multiset()));
    }
}

/// The walk yields each file of a tree exactly as often as the tree holds
/// it.
pub proof fn lemma_walk_files_permutation<E, P>(t: DirTree<E, P>)
    ensures
        walk_files(t).to_multiset() == tree_files(t).to_multiset(),
    decreases t, 0nat,
{
    broadcast use vstd::seq_lib::lemma_multiset_commutative;
    lemma_stack_files_permutation(t.subdirs);
}

/// A walk started at the root of a finite tree, answered at each step with
/// the listing of the directory taken, is over after one step per
/// directory; it yields the files of the tree in walk order, each file of
/// the tree exactly once (as often as the tree lists it).
pub proof fn lemma_walk_yields_each_file_once<E, P>(root: DirTree<E, P>)
    ensures
        walk_steps(seq![root], tree_size(root)).0 == walk_files(root),
        walk_steps(seq![root], tree_size(root)).1.len() == 0,
        walk_files(root).to_multiset() == tree_files(root).to_multiset(),
{
    let below = Seq::<DirTree<E, P>>::empty();
    let top = seq![root];
    assert(below + top =~= top);
    assert(top.subrange(0, 0) =~= below);
    assert(forest_size(below) == 0);
    assert(top[0] == root);
    assert(forest_size(top) == forest_size(top.subrange(0, 0)) + tree_size(top[0]));
    assert(forest_size(top) == tree_size(root));
    lemma_walk_forest(below, top);
    assert(stack_files(top) =~= walk_files(root) + stack_files(below));
    assert(walk_files(root) + Seq::<E>::empty() =~= walk_files(root));
    lemma_walk_files_permutation(root);
}

} // verus!
