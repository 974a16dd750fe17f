use vstd::prelude::*;
use vstd::seq_lib::{group_to_multiset_ensures, lemma_multiset_commutative};
use crate::utils::random_int;

verus! {

broadcast use group_to_multiset_ensures;

/// The objects `0 .. n` of a scene, in index order.
pub open spec fn scene_objects(n: nat) -> Seq<usize> {
    Seq::new(n, |i: int| i as usize)
}

/// Sort key of object `o` along `axis`: the low end of its bounding box there.
pub open spec fn key(keys: Seq<[i64; 3]>, o: usize, axis: int) -> i64 {
    keys[o as int][axis]
}

/// Every entry of `s` names an object that has keys.
pub open spec fn valid_objects(s: Seq<usize>, keys: Seq<[i64; 3]>) -> bool {
    forall|i: int| 0 <= i < s.len() ==> s[i] < keys.len()
}

/// `s` is in non-decreasing key order along `axis`.
pub open spec fn sorted_on(s: Seq<usize>, keys: Seq<[i64; 3]>, axis: int) -> bool {
    forall|i: int, j: int| 0 <= i <= j < s.len() ==> key(keys, s[i], axis) <= key(keys, s[j], axis)
}

/// Every object of `lo` has a key no greater than every object of `hi` along `axis`.
pub open spec fn split_on(lo: Seq<usize>, hi: Seq<usize>, keys: Seq<[i64; 3]>, axis: int) -> bool {
    forall|i: int, j: int|
        0 <= i < lo.len() && 0 <= j < hi.len() ==> key(keys, lo[i], axis) <= key(keys, hi[j], axis)
}

/// One side of a hierarchy node: an object of the scene, by index, or a subtree.
pub enum BvhChild {
    Object(usize),
    Node(Box<BVH>),
}

/// A bounding volume hierarchy over the objects of a scene, named by index.
/// A node over a single object holds that object on both sides.
pub struct BVH {
    pub left: BvhChild,
    pub right: BvhChild,
}

impl BVH {
    /// The node holds one object, aliased on both sides.
    pub open spec fn is_alias(self) -> bool {
        self.left is Object && self.left == self.right
    }

    /// The objects beneath this node, left to right, each alias counted once.
    pub open spec fn objects(self) -> Seq<usize>
        decreases self,
    {
        if self.is_alias() {
            seq![self.left->Object_0]
        } else {
            let l = match self.left {
                BvhChild::Object(o) => seq![o],
                BvhChild::Node(b) => b.objects(),
            };
            let r = match self.right {
                BvhChild::Object(o) => seq![o],
                BvhChild::Node(b) => b.objects(),
            };
            l + r
        }
    }

    /// Shape and order: a node over one or two objects holds them directly;
    /// a larger node holds two subtrees, the left one over the lower half of
    /// the count, and every object on the left is no greater than every
    /// object on the right along some axis.
    pub open spec fn well_formed(self, keys: Seq<[i64; 3]>) -> bool
        decreases self,
    {
        match self.left {
            BvhChild::Object(a) => match self.right {
                BvhChild::Object(b) => a < keys.len() && b < keys.len(),
                BvhChild::Node(_) => false,
            },
            BvhChild::Node(l) => match self.right {
                BvhChild::Object(_) => false,
                BvhChild::Node(r) => {
                    let n = l.objects().len() + r.objects().len();
                    &&& l.well_formed(keys)
                    &&& r.well_formed(keys)
                    &&& n >= 3
                    &&& l.objects().len() == n / 2
                    &&& exists|axis: int|
                        0 <= axis < 3 && split_on(l.objects(), r.objects(), keys, axis)
                },
            },
        }
    }

    /// A hierarchy over objects `0 .. keys.len()`, where `keys[o]` holds the
    /// low corner of object o's bounding box. Each node splits along an
    /// axis drawn at random.
    pub fn new(keys: &Vec<[i64; 3]>) -> (r: BVH)
        requires
            keys.len() >= 1,
        ensures
            r.well_formed(keys@),
            r.objects().to_multiset() == scene_objects(keys.len() as nat).to_multiset(),
    {
        let n = keys.len();
        let mut span: Vec<usize> = Vec::new();
        let mut i: usize = 0;
        while i < n
            invariant
                i <= n,
                n == keys.len(),
                span@ == scene_objects(i as nat),
            decreases n - i,
        {
            span.push(i);
            i = i + 1;
            assert(span@ =~= scene_objects(i as nat));
        }
        build(span, keys)
    }
}

/// A hierarchy whose objects have the multiset of `0 .. n` holds every
/// object of the scene exactly once and nothing else.
pub proof fn lemma_every_object_once(t: BVH, n: nat)
    requires
        n <= usize::MAX + 1,
        t.objects().to_multiset() == scene_objects(n).to_multiset(),
    ensures
        t.objects().len() == n,
        t.objects().no_duplicates(),
        forall|o: usize| #[trigger] t.objects().contains(o) <==> o < n,
{
    assert(scene_objects(n).no_duplicates());
    lemma_same_multiset_no_duplicates(scene_objects(n), t.objects());
    assert(t.objects().to_multiset().len() == t.objects().len());
    assert(scene_objects(n).to_multiset().len() == scene_objects(n).len());
    assert forall|o: usize| #[trigger] t.objects().contains(o) <==> o < n by {
        if o < n {
            assert(scene_objects(n)[o as int] == o);
            assert(scene_objects(n).contains(o));
        }
        if t.objects().contains(o) {
            assert(scene_objects(n).to_multiset().contains(o));
            assert(scene_objects(n).contains(o));
        }
    }
}

/// The sorted runs `a` and `b` merged into one, taking from `a` first
/// among equal keys.
fn merge(a: Vec<usize>, b: Vec<usize>, keys: &Vec<[i64; 3]>, axis: usize) -> (r: Vec<usize>)
    requires
        axis < 3,
        valid_objects(a@, keys@),
        valid_objects(b@, keys@),
        sorted_on(a@, keys@, axis as int),
        sorted_on(b@, keys@, axis as int),
    ensures
        r@.to_multiset() == a@.to_multiset().add(b@.to_multiset()),
        r.len() == a.len() + b.len(),
        sorted_on(r@, keys@, axis as int),
        valid_objects(r@, keys@),
{
    let ghost ax = axis as int;
    let mut out: Vec<usize> = Vec::new();
    let mut i: usize = 0;
    let mut j: usize = 0;
    while i < a.len() || j < b.len()
        invariant
            axis < 3,
            ax == axis as int,
            i <= a.len(),
            j <= b.len(),
            valid_objects(a@, keys@),
            valid_objects(b@, keys@),
            sorted_on(a@, keys@, ax),
            sorted_on(b@, keys@, ax),
            out.len() == i + j,
            out@.to_multiset() == a@.subrange(0, i as int).to_multiset().add(
                b@.subrange(0, j as int).to_multiset(),
            ),
            sorted_on(out@, keys@, ax),
            valid_objects(out@, keys@),
            out.len() > 0 && i < a.len() ==> key(keys@, out@.last(), ax) <= key(keys@, a@[i as int], ax),
            out.len() > 0 && j < b.len() ==> key(keys@, out@.last(), ax) <= key(keys@, b@[j as int], ax),
        decreases a.len() + b.len() - i - j,
    {
        let take_a = if i < a.len() && j < b.len() {
            keys[a[i]][axis] <= keys[b[j]][axis]
        } else {
            i < a.len()
        };
        let ghost before = out@;
        if take_a {
            let x = a[i];
            out.push(x);
            proof {
                assert(a@.subrange(0, i + 1) =~= a@.subrange(0, i as int).push(x));
                assert(out@ == before.push(x));
            }
            i = i + 1;
        } else {
            let x = b[j];
            out.push(x);
            proof {
                assert(b@.subrange(0, j + 1) =~= b@.subrange(0, j as int).push(x));
                assert(out@ == before.push(x));
            }
            j = j + 1;
        }
        proof {
            assert forall|p: int, q: int| 0 <= p <= q < out@.len() implies key(keys@, out@[p], ax)
                <= key(keys@, out@[q], ax) by {
                if q == out@.len() - 1 && p < q {
                    assert(key(keys@, before[p], ax) <= key(keys@, before.last(), ax));
                }
            }
        }
    }
    assert(a@.subrange(0, a.len() as int) =~= a@);
    assert(b@.subrange(0, b.len() as int) =~= b@);
    out
}

/// `span` in non-decreasing key order along `axis` (stable merge sort).
pub fn sort_on_axis(span: &Vec<usize>, keys: &Vec<[i64; 3]>, axis: usize) -> (r: Vec<usize>)
    requires
        axis < 3,
        valid_objects(span@, keys@),
    ensures
        r@.to_multiset() == span@.to_multiset(),
        r.len() == span.len(),
        sorted_on(r@, keys@, axis as int),
        valid_objects(r@, keys@),
    decreases span.len(),
{
    let len = span.len();
    if len <= 1 {
        let r = copy_range(span, 0, len);
        assert(r@ =~= span@);
        return r;
    }
    let mid = len / 2;
    let lo = copy_range(span, 0, mid);
    let hi = copy_range(span, mid, len);
    proof {
        assert(span@ =~= lo@ + hi@);
        lemma_multiset_commutative(lo@, hi@);
    }
    let lo_sorted = sort_on_axis(&lo, keys, axis);
    let hi_sorted = sort_on_axis(&hi, keys, axis);
    merge(lo_sorted, hi_sorted, keys, axis)
}

/// Every object of the lower part of a sorted run is no greater than
/// every object of the upper part, whatever order each part is kept in.
proof fn lemma_split_of_sorted(
    s: Seq<usize>,
    mid: int,
    lo: Seq<usize>,
    hi: Seq<usize>,
    keys: Seq<[i64; 3]>,
    axis: int,
)
    requires
        0 <= mid <= s.len(),
        sorted_on(s, keys, axis),
        lo.to_multiset() == s.subrange(0, mid).to_multiset(),
        hi.to_multiset() == s.subrange(mid, s.len() as int).to_multiset(),
    ensures
        split_on(lo, hi, keys, axis),
{
    assert forall|i: int, j: int| 0 <= i < lo.len() && 0 <= j < hi.len() implies key(
        keys,
        lo[i],
        axis,
    ) <= key(keys, hi[j], axis) by {
        assert(lo.contains(lo[i]));
        assert(s.subrange(0, mid).to_multiset().contains(lo[i]));
        assert(s.subrange(0, mid).contains(lo[i]));
        let a = choose|a: int| 0 <= a < mid && s.subrange(0, mid)[a] == lo[i];
        assert(hi.contains(hi[j]));
        assert(s.subrange(mid, s.len() as int).to_multiset().contains(hi[j]));
        assert(s.subrange(mid, s.len() as int).contains(hi[j]));
        let b = choose|b: int|
            0 <= b < s.len() - mid && s.subrange(mid, s.len() as int)[b] == hi[j];
        assert(s[a] == lo[i]);
        assert(s[mid + b] == hi[j]);
    }
}

/// A sequence with the multiset of a duplicate-free one has no duplicates.
proof fn lemma_same_multiset_no_duplicates(s: Seq<usize>, t: Seq<usize>)
    requires
        s.no_duplicates(),
        t.to_multiset() == s.to_multiset(),
    ensures
        t.no_duplicates(),
{
    s.lemma_multiset_has_no_duplicates();
    t.lemma_multiset_has_no_duplicates_conv();
}

/// Copies `s[lo .. hi]`.
fn copy_range(s: &Vec<usize>, lo: usize, hi: usize) -> (r: Vec<usize>)
    requires
        lo <= hi <= s.len(),
    ensures
        r@ == s@.subrange(lo as int, hi as int),
{
    let mut out: Vec<usize> = Vec::new();
    let mut i: usize = lo;
    while i < hi
        invariant
            lo <= i <= hi,
            hi <= s.len(),
            out@ == s@.subrange(lo as int, i as int),
        decreases hi - i,
    {
        out.push(s[i]);
        i = i + 1;
        assert(out@ =~= s@.subrange(lo as int, i as int));
    }
    out
}

/// A hierarchy over the objects of `span`.
fn build(span: Vec<usize>, keys: &Vec<[i64; 3]>) -> (r: BVH)
    requires
        span.len() >= 1,
        span@.no_duplicates(),
        valid_objects(span@, keys@),
    ensures
        r.well_formed(keys@),
        r.objects().to_multiset() == span@.to_multiset(),
    decreases span.len(),
{
    let len = span.len();
    if len == 1 {
        let r = BVH { left: BvhChild::Object(span[0]), right: BvhChild::Object(span[0]) };
        assert(r.objects() =~= span@);
        r
    } else if len == 2 {
        let r = BVH { left: BvhChild::Object(span[0]), right: BvhChild::Object(span[1]) };
        assert(span@[0] != span@[1]);
        assert(r.objects() =~= span@);
        r
    } else {
        let axis = random_int(0, 2);
        let sorted = sort_on_axis(&span, keys, axis);
        proof {
            lemma_same_multiset_no_duplicates(span@, sorted@);
        }
        let mid = len / 2;
        let lo = copy_range(&sorted, 0, mid);
        let hi = copy_range(&sorted, mid, len);
        proof {
            assert(sorted@ =~= lo@ + hi@);
            lemma_multiset_commutative(lo@, hi@);
            assert(lo@.no_duplicates());
            assert(hi@.no_duplicates());
        }
        let left = build(lo, keys);
        let right = build(hi, keys);
        let ghost lo_s = sorted@.subrange(0, mid as int);
        let ghost hi_s = sorted@.subrange(mid as int, len as int);
        let r = BVH { left: BvhChild::Node(Box::new(left)), right: BvhChild::Node(Box::new(right)) };
        proof {
            lemma_split_of_sorted(sorted@, mid as int, left.objects(), right.objects(), keys@, axis as int);
            assert(left.objects().len() == lo_s.len()) by {
                assert(left.objects().to_multiset().len() == lo_s.to_multiset().len());
            }
            assert(right.objects().len() == hi_s.len()) by {
                assert(right.objects().to_multiset().len() == hi_s.to_multiset().len());
            }
            assert(r.objects() == left.objects() + right.objects());
            lemma_multiset_commutative(left.objects(), right.objects());
        }
        r
    }
}

} // verus!
