//! The document tree: nodes in document order, each with the index of the
//! last node of its subtree.
//!
//! A node's index is its position in the sequence. The subtree of node `n`
//! is the range of indices from `n` to `n.last_descendant`, both included.

use vstd::prelude::*;

verus! {

/// What a node is, with the values that layout and navigation read.
#[derive(Clone, Debug, PartialEq, Eq)]
pub enum Data {
    Section,
    Header { id: String },
    Text { contents: String },
    Division,
    Paragraph,
    Span,
    Reflink,
    Hatnote,
    RedirectMessage,
    Disambiguation,
    OrderedList,
    UnorderedList,
    ListItem,
    DescriptionList,
    DescriptionListTerm,
    DescriptionListDescription,
    Bold,
    Italic,
    WikiLink { page: String },
    RedLink,
    MediaLink,
    ExternalLink,
    Unknown,
}

impl Data {
    /// Whether the node is a link of any kind.
    #[verifier::allow_in_spec]
    pub fn is_link(&self) -> bool
        returns
            (self is WikiLink || self is RedLink || self is MediaLink || self is ExternalLink),
    {
        match self {
            Data::WikiLink { .. } => true,
            Data::RedLink => true,
            Data::MediaLink => true,
            Data::ExternalLink => true,
            _ => false,
        }
    }
}

/// One node of the tree.
#[derive(Clone, Debug, PartialEq, Eq)]
pub struct Node {
    pub data: Data,
    /// Index of the last node of this node's subtree; the node's own index
    /// where it has no children.
    pub last_descendant: usize,
}

/// Whether `nodes` is a forest in document order: every subtree range starts
/// at its node and stays inside the sequence, and two ranges are either
/// nested or apart.
pub open spec fn well_formed(nodes: Seq<Node>) -> bool {
    &&& forall|i: int|
        0 <= i < nodes.len() ==> i <= (#[trigger] nodes[i]).last_descendant < nodes.len()
    &&& forall|i: int, j: int|
        0 <= i < j < nodes.len() && j <= (#[trigger] nodes[i]).last_descendant ==> (
        #[trigger] nodes[j]).last_descendant <= nodes[i].last_descendant
}

/// Whether index `d` lies in the containment range of node `n`.
pub open spec fn in_range(nodes: Seq<Node>, n: int, d: int) -> bool {
    0 <= n <= d < nodes.len() && d <= nodes[n].last_descendant
}

/// The nearest node at or before `k` whose range reaches `j`, if there is one.
pub open spec fn enclosing_from(nodes: Seq<Node>, j: int, k: int) -> Option<int>
    decreases k + 1,
{
    if k < 0 || k >= nodes.len() {
        None
    } else if nodes[k].last_descendant >= j {
        Some(k)
    } else {
        enclosing_from(nodes, j, k - 1)
    }
}

/// The parent of node `j`: the nearest earlier node whose range holds `j`.
pub open spec fn parent_of(nodes: Seq<Node>, j: int) -> Option<int> {
    enclosing_from(nodes, j, j - 1)
}

/// Whether `d` is reached from `n` by one or more steps from parent to child.
pub open spec fn is_descendant(nodes: Seq<Node>, n: int, d: int) -> bool
    decreases d,
{
    if 0 <= d < nodes.len() {
        match parent_of(nodes, d) {
            Some(p) => 0 <= p < d && (p == n || is_descendant(nodes, n, p)),
            None => false,
        }
    } else {
        false
    }
}

/// What `enclosing_from` finds: the result is below the start, its range
/// reaches `j`, and no node between it and the start has such a range.
pub proof fn lemma_enclosing_from(nodes: Seq<Node>, j: int, k: int)
    requires
        k < nodes.len(),
    ensures
        match enclosing_from(nodes, j, k) {
            Some(p) => 0 <= p <= k && nodes[p].last_descendant >= j && forall|m: int|
                p < m <= k ==> (#[trigger] nodes[m]).last_descendant < j,
            None => forall|m: int| 0 <= m <= k ==> (#[trigger] nodes[m]).last_descendant < j,
        },
    decreases k + 1,
{
    if k >= 0 && nodes[k].last_descendant < j {
        lemma_enclosing_from(nodes, j, k - 1);
    }
}

/// The containment law of the tree: every descendant of a node lies in the
/// node's range, strictly after the node itself. It holds at any depth.
pub proof fn lemma_descendant_in_range(nodes: Seq<Node>, n: int, d: int)
    requires
        well_formed(nodes),
        0 <= n < nodes.len(),
        is_descendant(nodes, n, d),
    ensures
        n < d,
        in_range(nodes, n, d),
        nodes[d].last_descendant <= nodes[n].last_descendant,
    decreases d,
{
    let p = parent_of(nodes, d)->0;
    lemma_enclosing_from(nodes, d, d - 1);
    assert(nodes[d].last_descendant <= nodes[p].last_descendant);
    if p != n {
        lemma_descendant_in_range(nodes, n, p);
    }
}

/// The converse of the containment law: every index in a node's range, other
/// than the node, is one of its descendants.
pub proof fn lemma_range_is_descendant(nodes: Seq<Node>, n: int, d: int)
    requires
        well_formed(nodes),
        in_range(nodes, n, d),
        n < d,
    ensures
        is_descendant(nodes, n, d),
    decreases d,
{
    lemma_enclosing_from(nodes, d, d - 1);
    let p = parent_of(nodes, d)->0;
    assert(parent_of(nodes, d) is Some);
    assert(n <= p < d);
    if p != n {
        assert(nodes[p].last_descendant >= d);
        lemma_range_is_descendant(nodes, n, p);
    }
}

/// The node after a node is its first child, where the node's range goes on.
pub proof fn lemma_first_child(nodes: Seq<Node>, p: int)
    requires
        well_formed(nodes),
        0 <= p < nodes.len(),
        p < nodes[p].last_descendant,
    ensures
        parent_of(nodes, p + 1) == Some(p),
{
}

/// The node after the range of a child is the next child of the same parent,
/// where the parent's range goes on.
pub proof fn lemma_next_sibling(nodes: Seq<Node>, p: int, c: int)
    requires
        well_formed(nodes),
        0 <= c < nodes.len(),
        parent_of(nodes, c) == Some(p),
        nodes[c].last_descendant < nodes[p].last_descendant,
    ensures
        parent_of(nodes, nodes[c].last_descendant + 1) == Some(p),
{
    let next = nodes[c].last_descendant + 1;
    lemma_enclosing_from(nodes, c, c - 1);
    lemma_enclosing_from(nodes, next, next - 1);
    assert(nodes[p].last_descendant >= next);
    match parent_of(nodes, next) {
        Some(q) => {
            if q > p {
                if q > c {
                    assert(nodes[q].last_descendant <= nodes[c].last_descendant);
                } else if q < c {
                    assert(nodes[q].last_descendant < c);
                }
            }
        },
        None => {},
    }
}

/// The first link among the nodes from `lo` to `hi`, both included.
pub open spec fn first_link(nodes: Seq<Node>, lo: int, hi: int) -> Option<int>
    decreases hi - lo + 1,
{
    if lo > hi || lo < 0 || hi >= nodes.len() {
        None
    } else if nodes[lo].data.is_link() {
        Some(lo)
    } else {
        first_link(nodes, lo + 1, hi)
    }
}

/// The last link among the nodes from `lo` to `hi`, both included.
pub open spec fn last_link(nodes: Seq<Node>, lo: int, hi: int) -> Option<int>
    decreases hi - lo + 1,
{
    if lo > hi || lo < 0 || hi >= nodes.len() {
        None
    } else if nodes[hi].data.is_link() {
        Some(hi)
    } else {
        last_link(nodes, lo, hi - 1)
    }
}

/// Whether node `i` is a header with the identifier `anchor`.
pub open spec fn is_header(nodes: Seq<Node>, i: int, anchor: Seq<char>) -> bool {
    &&& 0 <= i < nodes.len()
    &&& nodes[i].data matches Data::Header { id }
    &&& id@ == anchor
}

/// The last header with the identifier `anchor` among the nodes from `lo` to
/// `hi`, both included.
pub open spec fn last_header(nodes: Seq<Node>, anchor: Seq<char>, lo: int, hi: int) -> Option<int>
    decreases hi - lo + 1,
{
    if lo > hi || lo < 0 || hi >= nodes.len() {
        None
    } else if is_header(nodes, hi, anchor) {
        Some(hi)
    } else {
        last_header(nodes, anchor, lo, hi - 1)
    }
}

/// What `first_link` finds: a link in the range with no link before it in the
/// range, or nothing where the range holds no link.
pub proof fn lemma_first_link(nodes: Seq<Node>, lo: int, hi: int)
    requires
        0 <= lo,
        hi < nodes.len(),
    ensures
        match first_link(nodes, lo, hi) {
            Some(i) => lo <= i <= hi && nodes[i].data.is_link() && forall|k: int|
                lo <= k < i ==> !(#[trigger] nodes[k]).data.is_link(),
            None => forall|k: int| lo <= k <= hi ==> !(#[trigger] nodes[k]).data.is_link(),
        },
    decreases hi - lo + 1,
{
    if lo <= hi && !nodes[lo].data.is_link() {
        lemma_first_link(nodes, lo + 1, hi);
    }
}

/// What `last_link` finds: a link in the range with no link after it in the
/// range, or nothing where the range holds no link.
pub proof fn lemma_last_link(nodes: Seq<Node>, lo: int, hi: int)
    requires
        0 <= lo,
        hi < nodes.len(),
    ensures
        match last_link(nodes, lo, hi) {
            Some(i) => lo <= i <= hi && nodes[i].data.is_link() && forall|k: int|
                i < k <= hi ==> !(#[trigger] nodes[k]).data.is_link(),
            None => forall|k: int| lo <= k <= hi ==> !(#[trigger] nodes[k]).data.is_link(),
        },
    decreases hi - lo + 1,
{
    if lo <= hi && !nodes[hi].data.is_link() {
        lemma_last_link(nodes, lo, hi - 1);
    }
}

/// What `last_header` finds: a header with the identifier in the range with
/// no such header after it in the range, or nothing where the range holds
/// none.
pub proof fn lemma_last_header(nodes: Seq<Node>, anchor: Seq<char>, lo: int, hi: int)
    requires
        0 <= lo,
        hi < nodes.len(),
    ensures
        match last_header(nodes, anchor, lo, hi) {
            Some(i) => lo <= i <= hi && is_header(nodes, i, anchor) && forall|k: int|
                i < k <= hi ==> !is_header(nodes, k, anchor),
            None => forall|k: int| lo <= k <= hi ==> !is_header(nodes, k, anchor),
        },
    decreases hi - lo + 1,
{
    if lo <= hi && !is_header(nodes, hi, anchor) {
        lemma_last_header(nodes, anchor, lo, hi - 1);
    }
}

/// A forest of nodes in document order.
#[derive(Clone, Debug, PartialEq, Eq)]
pub struct Document {
    nodes: Vec<Node>,
}

impl View for Document {
    type V = Seq<Node>;

    closed spec fn view(&self) -> Seq<Node> {
        self.nodes@
    }
}

impl Document {
    /// The invariant of a document: its nodes form a forest in document order.
    pub open spec fn wf(&self) -> bool {
        well_formed(self@)
    }

    /// The document without nodes.
    pub fn new() -> (r: Document)
        ensures
            r@ == Seq::<Node>::empty(),
            r.wf(),
    {
        Document { nodes: Vec::new() }
    }

    /// Builds a document from nodes in document order, or nothing where the
    /// ranges they give do not form a forest.
    pub fn from_nodes(nodes: Vec<Node>) -> (r: Option<Document>)
        ensures
            r is Some <==> well_formed(nodes@),
            r matches Some(d) ==> d@ == nodes@ && d.wf(),
    {
        let n = nodes.len();
        let mut i: usize = 0;
        while i < n
            invariant
                n == nodes.len(),
                i <= n,
                forall|a: int| 0 <= a < i ==> a <= (#[trigger] nodes[a]).last_descendant < n,
                forall|a: int, b: int|
                    0 <= a < i && a < b < n && b <= (#[trigger] nodes[a]).last_descendant ==> (
                    #[trigger] nodes[b]).last_descendant <= nodes[a].last_descendant,
            decreases n - i,
        {
            let end = nodes[i].last_descendant;
            if end < i || end >= n {
                return None;
            }
            let mut j: usize = i + 1;
            while j <= end
                invariant
                    n == nodes.len(),
                    i < j <= end + 1,
                    end < n,
                    end == nodes[i as int].last_descendant,
                    forall|b: int|
                        i < b < j ==> (#[trigger] nodes[b]).last_descendant <= end,
                decreases end + 1 - j,
            {
                if nodes[j].last_descendant > end {
                    return None;
                }
                j = j + 1;
            }
            i = i + 1;
        }
        Some(Document { nodes })
    }

    /// Number of nodes.
    pub fn len(&self) -> (r: usize)
        ensures
            r == self@.len(),
    {
        self.nodes.len()
    }

    /// Whether the document has no nodes.
    pub fn is_empty(&self) -> (r: bool)
        ensures
            r == (self@.len() == 0),
    {
        self.nodes.len() == 0
    }

    /// The node at `index`, if there is one.
    pub fn nth(&self, index: usize) -> (r: Option<&Node>)
        ensures
            r is Some <==> index < self@.len(),
            r matches Some(node) ==> *node == self@[index as int],
    {
        if index < self.nodes.len() {
            Some(&self.nodes[index])
        } else {
            None
        }
    }

    /// What the node at `index` is.
    pub fn data(&self, index: usize) -> (r: &Data)
        requires
            index < self@.len(),
        ensures
            *r == self@[index as int].data,
    {
        &self.nodes[index].data
    }

    /// Index of the last node in the subtree of `index`.
    pub fn last_descendant(&self, index: usize) -> (r: usize)
        requires
            self.wf(),
            index < self@.len(),
        ensures
            r == self@[index as int].last_descendant,
            index <= r < self@.len(),
    {
        self.nodes[index].last_descendant
    }

    /// The parent of the node at `index`, if it has one.
    pub fn parent(&self, index: usize) -> (r: Option<usize>)
        requires
            index < self@.len(),
        ensures
            match r {
                Some(p) => parent_of(self@, index as int) == Some(p as int),
                None => parent_of(self@, index as int) is None,
            },
    {
        let mut k: usize = index;
        while k > 0
            invariant
                k <= index < self.nodes.len(),
                parent_of(self@, index as int) == enclosing_from(self@, index as int, k - 1),
            decreases k,
        {
            k = k - 1;
            if self.nodes[k].last_descendant >= index {
                return Some(k);
            }
        }
        None
    }
    /// Index of the first link among the nodes from `lo` to `hi`, both
    /// included.
    pub fn first_link(&self, lo: usize, hi: usize) -> (r: Option<usize>)
        requires
            hi < self@.len(),
        ensures
            match r {
                Some(i) => first_link(self@, lo as int, hi as int) == Some(i as int),
                None => first_link(self@, lo as int, hi as int) is None,
            },
    {
        let mut k: usize = lo;
        while k <= hi
            invariant
                lo <= k,
                hi < self.nodes.len(),
                first_link(self@, lo as int, hi as int) == first_link(self@, k as int, hi as int),
            decreases hi + 1 - k,
        {
            if self.nodes[k].data.is_link() {
                return Some(k);
            }
            k = k + 1;
        }
        None
    }

    /// Index of the last link among the nodes from `lo` to `hi`, both
    /// included.
    pub fn last_link(&self, lo: usize, hi: usize) -> (r: Option<usize>)
        requires
            hi < self@.len(),
        ensures
            match r {
                Some(i) => last_link(self@, lo as int, hi as int) == Some(i as int),
                None => last_link(self@, lo as int, hi as int) is None,
            },
    {
        let mut k: usize = hi;
        while k >= lo
            invariant
                k <= hi < self.nodes.len(),
                last_link(self@, lo as int, hi as int) == last_link(self@, lo as int, k as int),
            decreases k,
        {
            if self.nodes[k].data.is_link() {
                return Some(k);
            }
            assert(last_link(self@, lo as int, k as int) == last_link(self@, lo as int, k - 1));
            if k == 0 {
                return None;
            }
            k = k - 1;
        }
        None
    }

    /// Index of the last header with the identifier `anchor` among the nodes
    /// from `lo` to `hi`, both included.
    pub fn last_header(&self, anchor: &String, lo: usize, hi: usize) -> (r: Option<usize>)
        requires
            hi < self@.len(),
        ensures
            match r {
                Some(i) => last_header(self@, anchor@, lo as int, hi as int) == Some(i as int),
                None => last_header(self@, anchor@, lo as int, hi as int) is None,
            },
    {
        let mut k: usize = hi;
        while k >= lo
            invariant
                k <= hi < self.nodes.len(),
                last_header(self@, anchor@, lo as int, hi as int) == last_header(
                    self@,
                    anchor@,
                    lo as int,
                    k as int,
                ),
            decreases k,
        {
            let found = match &self.nodes[k].data {
                Data::Header { id } => *id == *anchor,
                _ => false,
            };
            assert(found == is_header(self@, k as int, anchor@));
            if found {
                return Some(k);
            }
            assert(last_header(self@, anchor@, lo as int, k as int) == last_header(
                self@,
                anchor@,
                lo as int,
                k - 1,
            ));
            if k == 0 {
                return None;
            }
            k = k - 1;
        }
        None
    }
}

} // verus!
