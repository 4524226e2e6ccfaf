//! The rope tree: leaves hold contiguous runs of characters, internal nodes
//! cache the character count of their left subtree (the `weight`), and every
//! operation is structural recursion over the tree.

use vstd::prelude::*;
use vstd::string::StrSliceExecFns;
use vstd::string::StringExecFns;

verus! {

/// A terminal rope node holding a contiguous run of characters.
pub struct Leaf {
    buf: String,
    len: usize,
}

/// An internal rope branch: `weight` caches the character count of the left
/// subtree. Both children are always present; a branch with a missing child
/// would be an invalid tree, so the representation rules it out.
pub struct Node {
    weight: usize,
    left: Box<Rope>,
    right: Box<Rope>,
}

/// A rope is either a leaf or a branch over two smaller ropes.
pub enum Rope {
    Node(Node),
    Leaf(Leaf),
}

impl Leaf {
    /// The characters this leaf holds.
    pub closed spec fn content(self) -> Seq<char> {
        self.buf@
    }

    /// The cached character count agrees with the buffer.
    pub closed spec fn wf(self) -> bool {
        self.len == self.buf@.len()
    }

    /// Constructs a leaf spanning the entirety of `s`.
    pub fn new(s: &str) -> (l: Leaf)
        ensures
            l.wf(),
            l@ == s@,
    {
        let len = s.unicode_len();
        Leaf { buf: s.to_owned(), len }
    }

    /// Character count of the leaf.
    pub fn weight(&self) -> (w: usize)
        requires
            self.wf(),
        ensures
            w == self@.len(),
    {
        self.len
    }
}

impl Leaf {
    /// Cuts the run at `offset`: the two returned leaves hold the characters
    /// before and from the cut, and their concatenation reproduces the run.
    /// An `offset` of zero, or one at or past the end, degrades gracefully to
    /// an empty leaf on one side.
    pub fn split(&self, offset: usize) -> (pair: (Leaf, Leaf))
        requires
            self.wf(),
        ensures
            pair.0.wf(),
            pair.1.wf(),
            offset <= self@.len() ==> pair.0@ == self@.subrange(0, offset as int),
            offset <= self@.len() ==> pair.1@ == self@.subrange(offset as int, self@.len() as int),
            offset > self@.len() ==> pair.0@ == self@ && pair.1@ == Seq::<char>::empty(),
        {
        proof {
            reveal_strlit("");
        }
        if offset == 0 {
            let whole = Leaf { buf: self.buf.clone(), len: self.len };
            proof {
                assert(self@.subrange(0, 0) =~= Seq::<char>::empty());
                assert(self@.subrange(0, self@.len() as int) =~= self@);
            }
            (Leaf::new(""), whole)
        } else if offset >= self.len {
            let whole = Leaf { buf: self.buf.clone(), len: self.len };
            proof {
                assert(self@.subrange(0, self@.len() as int) =~= self@);
                assert(self@.subrange(self@.len() as int, self@.len() as int)
                    =~= Seq::<char>::empty());
            }
            (whole, Leaf::new(""))
        } else {
            let front = self.buf.as_str().substring_char(0, offset);
            let back = self.buf.as_str().substring_char(offset, self.len);
            (Leaf::new(front), Leaf::new(back))
        }
    }
}

impl Leaf {
    /// What `report` answers on a leaf: the characters of the inclusive range
    /// `[start, end]` when it lies inside the run, absence otherwise. The
    /// degenerate range with `start == end + 1` is the empty string.
    pub closed spec fn report_spec(self, start: int, end: int) -> Option<Seq<char>> {
        if 0 <= start && start <= end + 1 && end < self@.len() {
            Some(self@.subrange(start, end + 1))
        } else {
            None
        }
    }

    /// Extracts the inclusive range `[start, end]` of the run, or answers
    /// `None` when the range is not representable here. The miss is normal
    /// control flow for recursive range queries, not an error.
    pub fn report(&self, start: usize, end: usize) -> (r: Option<String>)
        requires
            self.wf(),
        ensures
            r matches Some(s) ==> self.report_spec(start as int, end as int) == Some(s@),
            r is None ==> self.report_spec(start as int, end as int) is None,
            start <= end && end < self@.len()
                ==> (r matches Some(s) && s@ == self@.subrange(start as int, end as int + 1)),
            end >= self@.len() ==> r is None,
    {
        if start <= end {
            if end < self.len {
                Some(self.buf.as_str().substring_char(start, end + 1).to_owned())
            } else {
                None
            }
        } else if end < self.len && start == end + 1 {
            proof {
                assert(self@.subrange(start as int, end + 1) =~= Seq::<char>::empty());
            }
            Some(String::new())
        } else {
            None
        }
    }
}

impl View for Leaf {
    type V = Seq<char>;

    open spec fn view(&self) -> Seq<char> {
        self.content()
    }
}

impl Rope {
    /// The logical character sequence the rope represents: the concatenation
    /// of its leaves' runs, left to right.
    pub closed spec fn content(self) -> Seq<char>
        decreases self,
    {
        match self {
            Rope::Leaf(leaf) => leaf@,
            Rope::Node(node) => node.left.content() + node.right.content(),
        }
    }

    /// Structural well-formedness: every cached weight equals the character
    /// count of the left subtree, and every subtree's character count fits in
    /// `usize` (so lengths and weights are representable).
    pub closed spec fn wf(self) -> bool
        decreases self,
    {
        match self {
            Rope::Leaf(leaf) => leaf.wf(),
            Rope::Node(node) => {
                &&& node.left.wf()
                &&& node.right.wf()
                &&& node.weight == node.left.content().len()
                &&& node.left.content().len() + node.right.content().len() <= usize::MAX
            },
        }
    }

    /// Constructs a rope holding exactly the characters of `s`.
    pub fn new(s: &str) -> (r: Rope)
        ensures
            r.wf(),
            r@ == s@,
            r is Leaf,
            r.lefts_nonempty(),
    {
        Rope::Leaf(Leaf::new(s))
    }

    /// True exactly when the rope is a single leaf.
    pub fn is_leaf(&self) -> (b: bool)
        ensures
            b == (self is Leaf),
    {
        match self {
            Rope::Leaf(_) => true,
            Rope::Node(_) => false,
        }
    }

    /// True exactly when the rope is an internal branch.
    pub fn is_node(&self) -> (b: bool)
        ensures
            b == (self is Node),
    {
        match self {
            Rope::Leaf(_) => false,
            Rope::Node(_) => true,
        }
    }

    /// The character count of the left subtree (for a branch), or of the
    /// whole run (for a leaf).
    pub closed spec fn spec_weight(self) -> int {
        match self {
            Rope::Leaf(leaf) => leaf@.len() as int,
            Rope::Node(node) => node.left.content().len() as int,
        }
    }

    /// Weight: a leaf's own character count, or a branch's cached weight.
    pub fn weight(&self) -> (w: usize)
        requires
            self.wf(),
        ensures
            w == self.spec_weight(),
    {
        match self {
            Rope::Leaf(leaf) => leaf.weight(),
            Rope::Node(node) => node.weight,
        }
    }

    /// Total character count: a leaf's weight, or a branch's weight plus the
    /// length of its right subtree.
    pub fn length(&self) -> (n: usize)
        requires
            self.wf(),
        ensures
            n == self@.len(),
        decreases self,
    {
        match self {
            Rope::Leaf(leaf) => leaf.weight(),
            Rope::Node(node) => node.weight + node.right.length(),
        }
    }
}

impl Rope {
    /// The leaf's run of characters, for a single-leaf rope; `None` for a
    /// branch.
    pub fn buf(&self) -> (r: Option<&str>)
        ensures
            (r is Some) == (self is Leaf),
            r matches Some(s) ==> s@ == self@,
    {
        match self {
            Rope::Node(_) => None,
            Rope::Leaf(leaf) => Some(leaf.buf.as_str()),
        }
    }

    /// The character at position `i` of the logical content, or `None` when
    /// `i` is out of range. The left subtree owns indices `[0, weight)`, so
    /// the boundary comparison is strict.
    pub fn index(&self, i: usize) -> (r: Option<char>)
        requires
            self.wf(),
        ensures
            i < self@.len() ==> r == Some(self@[i as int]),
            i >= self@.len() ==> r is None,
        decreases self,
    {
        match self {
            Rope::Leaf(leaf) => {
                if i < leaf.len {
                    Some(leaf.buf.as_str().get_char(i))
                } else {
                    None
                }
            },
            Rope::Node(node) => {
                if i < node.weight {
                    node.left.index(i)
                } else {
                    node.right.index(i - node.weight)
                }
            },
        }
    }

    /// Combines two ropes into one: a new branch owning both operands, its
    /// weight the length of the left one.
    pub fn join(left: Box<Rope>, right: Box<Rope>) -> (r: Rope)
        requires
            left.wf(),
            right.wf(),
            left@.len() + right@.len() <= usize::MAX,
        ensures
            r.wf(),
            r@ == left@ + right@,
            r is Node,
            r.spec_weight() == left@.len(),
            left.lefts_nonempty() && right.lefts_nonempty() && left@.len() > 0
                ==> r.lefts_nonempty(),
    {
        let weight = left.length();
        Rope::Node(Node { weight, left, right })
    }
}

impl Rope {
    /// Partitions the rope at `offset` into a prefix holding characters
    /// `[0, offset)` and a suffix holding the rest, consuming the source.
    /// An `offset` at or past the end yields the whole rope and an empty
    /// suffix. When the cut falls left of a branch's boundary, the split
    /// remainder is rejoined with the original right subtree; when it falls
    /// right, the original left subtree is rejoined with the split remainder.
    pub fn split(self, offset: usize) -> (pair: (Rope, Rope))
        requires
            self.wf(),
        ensures
            pair.0.wf(),
            pair.1.wf(),
            offset <= self@.len() ==> pair.0@ == self@.subrange(0, offset as int),
            offset <= self@.len() ==> pair.1@ == self@.subrange(offset as int, self@.len() as int),
            offset > self@.len() ==> pair.0@ == self@ && pair.1@ == Seq::<char>::empty(),
            self.lefts_nonempty() ==> pair.0.lefts_nonempty() && pair.1.lefts_nonempty(),
        decreases self,
    {
        match self {
            Rope::Leaf(leaf) => {
                let (front, back) = leaf.split(offset);
                (Rope::Leaf(front), Rope::Leaf(back))
            },
            Rope::Node(node) => {
                let Node { weight, left, right } = node;
                if offset < weight {
                    let (cut_front, cut_back) = (*left).split(offset);
                    let suffix = Rope::join(Box::new(cut_back), right);
                    (cut_front, suffix)
                } else {
                    let (cut_front, cut_back) = (*right).split(offset - weight);
                    let prefix = Rope::join(left, Box::new(cut_front));
                    (prefix, cut_back)
                }
            },
        }
    }

    /// Inserts the characters of `s` at position `at`, consuming the rope:
    /// the content becomes the characters before `at`, then `s`, then the
    /// rest. An `at` past the end appends `s`. Realized purely by `split` and
    /// two `join`s; no character storage is mutated in place.
    pub fn insert(self, s: &str, at: usize) -> (r: Rope)
        requires
            self.wf(),
            self@.len() + s@.len() <= usize::MAX,
        ensures
            r.wf(),
            at <= self@.len() ==> r@ == self@.subrange(0, at as int) + s@
                + self@.subrange(at as int, self@.len() as int),
            at > self@.len() ==> r@ == self@ + s@,
            self.lefts_nonempty() && 1 <= at && 1 <= self@.len() ==> r.lefts_nonempty(),
    {
        let (front, back) = self.split(at);
        let middle = Rope::new(s);
        let tmp = Rope::join(Box::new(front), Box::new(middle));
        Rope::join(Box::new(tmp), Box::new(back))
    }

    /// Removes the inclusive character range `[start, end]`, consuming the
    /// rope. A range reaching past the end removes everything from `start`
    /// on. Realized purely by two `split`s and a `join`.
    pub fn delete(self, start: usize, end: usize) -> (r: Rope)
        requires
            self.wf(),
            start <= end,
            end - start < usize::MAX,
        ensures
            r.wf(),
            r@ == self@.subrange(0, vstd::math::min(start as int, self@.len() as int))
                + self@.subrange(
                    vstd::math::min(end as int + 1, self@.len() as int),
                    self@.len() as int,
                ),
            self.lefts_nonempty() && 1 <= start && 1 <= self@.len() ==> r.lefts_nonempty(),
    {
        let (front, back) = self.split(start);
        let (_, kept) = back.split(end - start + 1);
        Rope::join(Box::new(front), Box::new(kept))
    }

    /// What `report` answers. A query whose length fits inside the left
    /// subtree's range is delegated there whole; a longer one spans both
    /// children: the left part is `[start, weight - 1]`, the right part the
    /// remainder of the query's length, and the answers are concatenated. If
    /// either side misses, the whole query misses — no partial result. A
    /// spanning query over a branch with an empty left subtree misses.
    pub closed spec fn report_spec(self, start: int, end: int) -> Option<Seq<char>>
        decreases self,
    {
        match self {
            Rope::Leaf(leaf) => leaf.report_spec(start, end),
            Rope::Node(node) => {
                if end - start < node.weight {
                    node.left.report_spec(start, end)
                } else if node.weight == 0 {
                    None
                } else {
                    match (
                        node.left.report_spec(start, node.weight - 1),
                        node.right.report_spec(0, end - start - node.weight),
                    ) {
                        (Some(front), Some(back)) => Some(front + back),
                        _ => None,
                    }
                }
            },
        }
    }

    /// Inclusive-range query: the substring covered by `[start, end]`, or
    /// `None` when the range is not representable by the reachable subtree
    /// (a normal miss, not an error). A prefix query inside the content of a
    /// rope whose branches all carry nonempty left subtrees always succeeds;
    /// a prefix query past the end always misses.
    pub fn report(&self, start: usize, end: usize) -> (r: Option<String>)
        requires
            self.wf(),
        ensures
            r matches Some(s) ==> self.report_spec(start as int, end as int) == Some(s@),
            r is None ==> self.report_spec(start as int, end as int) is None,
            start == 0 && end < self@.len() && self.lefts_nonempty()
                ==> (r matches Some(s) && s@ == self@.subrange(0, end as int + 1)),
            start == 0 && end >= self@.len() ==> r is None,
        decreases self,
    {
        let r = match self {
            Rope::Leaf(leaf) => leaf.report(start, end),
            Rope::Node(node) => {
                if start > end {
                    node.left.report(start, end)
                } else if end - start < node.weight {
                    node.left.report(start, end)
                } else if node.weight == 0 {
                    None
                } else {
                    match node.left.report(start, node.weight - 1) {
                        Some(front) => match node.right.report(0, end - start - node.weight) {
                            Some(back) => Some(front.concat(back.as_str())),
                            None => None,
                        },
                        None => None,
                    }
                }
            },
        };
        proof {
            if start == 0 && end < self@.len() && self.lefts_nonempty() {
                self.lemma_report_prefix(end as int);
            }
            if start == 0 && end >= self@.len() {
                self.lemma_report_past_end(end as int);
            }
        }
        r
    }

    /// Every branch's left subtree holds at least one character. Ropes built
    /// by `new` have this shape, and `split` preserves it; range reports that
    /// span a branch rely on it.
    pub closed spec fn lefts_nonempty(self) -> bool
        decreases self,
    {
        match self {
            Rope::Leaf(_) => true,
            Rope::Node(node) => {
                &&& node.left.content().len() > 0
                &&& node.left.lefts_nonempty()
                &&& node.right.lefts_nonempty()
            },
        }
    }
}

impl View for Rope {
    type V = Seq<char>;

    open spec fn view(&self) -> Seq<char> {
        self.content()
    }
}

impl Rope {
    /// A prefix query `[0, end]` that lies inside the content always succeeds
    /// and answers exactly that prefix, provided every branch's left subtree
    /// is nonempty. Queries with `start > 0` that span a branch answer a
    /// shifted range instead, so only prefix queries are pinned down here.
    pub proof fn lemma_report_prefix(self, end: int)
        requires
            self.wf(),
            self.lefts_nonempty(),
            0 <= end < self@.len(),
        ensures
            self.report_spec(0, end) == Some(self@.subrange(0, end + 1)),
        decreases self,
    {
        match self {
            Rope::Leaf(_) => {},
            Rope::Node(node) => {
                let w = node.weight as int;
                if end < w {
                    node.left.lemma_report_prefix(end);
                    assert(node.left.content().subrange(0, end + 1)
                        =~= self@.subrange(0, end + 1));
                } else {
                    node.left.lemma_report_prefix(w - 1);
                    node.right.lemma_report_prefix(end - w);
                    assert(node.left.content().subrange(0, w) =~= node.left.content());
                    assert(node.left.content() + node.right.content().subrange(0, end - w + 1)
                        =~= self@.subrange(0, end + 1));
                }
            },
        }
    }

    /// On a single-leaf rope, every inclusive range inside the content is
    /// answered exactly — not only prefixes. (On a branch, a query with
    /// `start > 0` that spans both children answers a shifted range, so this
    /// holds only at a leaf.)
    pub proof fn lemma_report_leaf(self, start: int, end: int)
        requires
            self.wf(),
            self is Leaf,
            0 <= start <= end < self@.len(),
        ensures
            self.report_spec(start, end) == Some(self@.subrange(start, end + 1)),
    {
    }

    /// A prefix query that reaches past the end of the content always misses.
    pub proof fn lemma_report_past_end(self, end: int)
        requires
            self.wf(),
            end >= self@.len(),
        ensures
            self.report_spec(0, end) is None,
        decreases self,
    {
        match self {
            Rope::Leaf(_) => {},
            Rope::Node(node) => {
                let w = node.weight as int;
                if end < w {
                    node.left.lemma_report_past_end(end);
                } else if w > 0 {
                    node.right.lemma_report_past_end(end - w);
                }
            },
        }
    }
}

/// A rope built fresh from a string holds exactly that string's characters,
/// so its length is the string's length.
pub proof fn lemma_new_length(r: Rope, s: Seq<char>)
    requires
        r@ == s,
    ensures
        r@.len() == s.len(),
{
}

/// Split round trip: when `front` and `back` partition `s` at `offset`,
/// concatenating them reproduces `s` exactly, and each nonempty part's
/// full-range report answers exactly that part (an empty part has no
/// full range to report and contributes nothing).
pub proof fn lemma_split_round_trip(front: Rope, back: Rope, s: Seq<char>, offset: int)
    requires
        front.wf(),
        back.wf(),
        front.lefts_nonempty(),
        back.lefts_nonempty(),
        0 <= offset <= s.len(),
        front@ == s.subrange(0, offset),
        back@ == s.subrange(offset, s.len() as int),
    ensures
        front@ + back@ == s,
        offset > 0 ==> front.report_spec(0, offset - 1) == Some(s.subrange(0, offset)),
        offset < s.len() ==> back.report_spec(0, s.len() - offset - 1)
            == Some(s.subrange(offset, s.len() as int)),
{
    assert(front@ + back@ =~= s);
    if offset > 0 {
        front.lemma_report_prefix(offset - 1);
        assert(front@.subrange(0, offset) =~= front@);
    }
    if offset < s.len() {
        back.lemma_report_prefix(s.len() - offset - 1);
        assert(back@.subrange(0, s.len() - offset) =~= back@);
    }
}

/// Inserting `s` at a position `at` inside the content (`1 <= at <= len`) and
/// then reporting the full range yields the characters before `at`, then `s`,
/// then the rest. (An insertion at position zero hangs an empty leaf under a
/// branch as its left subtree, and a full-range report then misses.)
pub proof fn lemma_insert_full_report(r: Rope, pre: Seq<char>, s: Seq<char>, at: int)
    requires
        r.wf(),
        r.lefts_nonempty(),
        1 <= at <= pre.len(),
        r@ == pre.subrange(0, at) + s + pre.subrange(at, pre.len() as int),
    ensures
        r.report_spec(0, r@.len() - 1) == Some(
            pre.subrange(0, at) + s + pre.subrange(at, pre.len() as int),
        ),
{
    r.lemma_report_prefix(r@.len() - 1);
    assert(r@.subrange(0, r@.len() as int) =~= r@);
}

/// Deleting the inclusive range `[start, end]` (with `1 <= start <= end` and
/// `end` inside the content) and then reporting the full range yields the
/// content with that range removed. (A deletion starting at position zero
/// hangs an empty leaf under a branch as its left subtree, and a full-range
/// report then misses.)
pub proof fn lemma_delete_full_report(r: Rope, pre: Seq<char>, start: int, end: int)
    requires
        r.wf(),
        r.lefts_nonempty(),
        1 <= start <= end < pre.len(),
        r@ == pre.subrange(0, start) + pre.subrange(end + 1, pre.len() as int),
    ensures
        r.report_spec(0, r@.len() - 1) == Some(
            pre.subrange(0, start) + pre.subrange(end + 1, pre.len() as int),
        ),
{
    r.lemma_report_prefix(r@.len() - 1);
    assert(r@.subrange(0, r@.len() as int) =~= r@);
}

/// A single-pass cursor over a rope: the owning rope plus a position counter.
/// Each step looks up the character at the current position, then advances;
/// the first miss means the traversal is over, and it cannot be restarted.
pub struct RopeIterator {
    rope: Rope,
    index: usize,
}

impl RopeIterator {
    /// The cursor walks a well-formed rope.
    pub closed spec fn wf(self) -> bool {
        self.rope.wf()
    }

    /// The character sequence being walked.
    pub closed spec fn elems(self) -> Seq<char> {
        self.rope@
    }

    /// The position the next step will look up.
    pub closed spec fn pos(self) -> int {
        self.index as int
    }

    /// Yields the character at the current position and advances, or yields
    /// nothing once the position has passed the end of the sequence.
    pub fn next(&mut self) -> (r: Option<char>)
        requires
            old(self).wf(),
            old(self).pos() < usize::MAX,
        ensures
            final(self).wf(),
            final(self).elems() == old(self).elems(),
            final(self).pos() == old(self).pos() + 1,
            old(self).pos() < old(self).elems().len()
                ==> r == Some(old(self).elems()[old(self).pos()]),
            old(self).pos() >= old(self).elems().len() ==> r is None,
    {
        let r = self.rope.index(self.index);
        self.index = self.index + 1;
        r
    }
}

impl Rope {
    /// Starts a sequential traversal at position zero, consuming the rope.
    pub fn into_iter(self) -> (it: RopeIterator)
        requires
            self.wf(),
        ensures
            it.wf(),
            it.elems() == self@,
            it.pos() == 0,
    {
        RopeIterator { rope: self, index: 0 }
    }
}

} // verus!
