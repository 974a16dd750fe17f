use vstd::prelude::*;
use crate::utils::{int_from_draw, random_draws};

verus! {

/// Number of lattice points per axis.
pub const POINT_COUNT: usize = 256;

/// The sequence 0, 1, ..., n - 1.
pub open spec fn identity_perm(n: nat) -> Seq<usize> {
    Seq::new(n, |i: int| i as usize)
}

/// `p` holds each of 0 .. n exactly once.
pub open spec fn is_permutation(p: Seq<usize>, n: nat) -> bool {
    &&& p.len() == n
    &&& forall|i: int| 0 <= i < n ==> p[i] < n
    &&& forall|i: int, j: int| 0 <= i < j < n ==> p[i] != p[j]
}

pub open spec fn swap(p: Seq<usize>, i: int, j: int) -> Seq<usize> {
    p.update(i, p[j]).update(j, p[i])
}

/// Fisher-Yates shuffle of positions i, i - 1, ..., 1: position k trades
/// places with position `draws[k - 1] mod (k + 1)`.
pub open spec fn shuffle(p: Seq<usize>, draws: Seq<u64>, i: int) -> Seq<usize>
    decreases i,
{
    if i <= 0 {
        p
    } else {
        shuffle(swap(p, i, (draws[i - 1] as int) % (i + 1)), draws, i - 1)
    }
}

/// The permutation table that a run of draws produces.
pub open spec fn perm_table(draws: Seq<u64>) -> Seq<usize> {
    shuffle(identity_perm(POINT_COUNT as nat), draws, POINT_COUNT - 1)
}

/// Euclidean remainder of a lattice coordinate by the table size.
pub open spec fn wrap_coord(i: int) -> int {
    i % (POINT_COUNT as int)
}

/// Shuffling keeps a permutation a permutation.
pub proof fn lemma_shuffle_permutes(p: Seq<usize>, draws: Seq<u64>, i: int, n: nat)
    requires
        is_permutation(p, n),
        i < n,
        draws.len() >= i,
    ensures
        is_permutation(shuffle(p, draws, i), n),
    decreases i,
{
    if i > 0 {
        let t = (draws[i - 1] as int) % (i + 1);
        let q = swap(p, i, t);
        assert forall|a: int, b: int| 0 <= a < b < n implies q[a] != q[b] by {
            assert(p[a] != p[b]);
            if a == i || a == t || b == i || b == t {
                if a == i && b != t {
                    assert(p[b] != p[t] || b == t);
                }
            }
        }
        lemma_shuffle_permutes(q, draws, i - 1, n);
    }
}

/// The identity is a permutation.
pub proof fn lemma_identity_permutes(n: nat)
    requires
        n <= usize::MAX + 1,
    ensures
        is_permutation(identity_perm(n), n),
{
}

/// Shuffles `points` in place, taking `draws[k - 1]` for position k.
pub fn permute(points: &mut Vec<usize>, draws: &Vec<u64>)
    requires
        old(points).len() >= 1,
        draws.len() + 1 >= old(points).len(),
    ensures
        final(points)@ == shuffle(old(points)@, draws@, old(points).len() - 1),
{
    let n = points.len();
    let mut i: usize = n - 1;
    while i > 0
        invariant
            i < n,
            points.len() == n,
            draws.len() + 1 >= n,
            shuffle(points@, draws@, i as int) == shuffle(old(points)@, draws@, n - 1),
        decreases i,
    {
        let target = int_from_draw(draws[i - 1], i);
        let ghost before = points@;
        let tmp = points[i];
        let other = points[target];
        points.set(i, other);
        points.set(target, tmp);
        assert(points@ == swap(before, i as int, target as int));
        i = i - 1;
    }
}

/// A permutation table of `POINT_COUNT` entries, shuffled by `draws`.
pub fn generate_perm(draws: &Vec<u64>) -> (r: Vec<usize>)
    requires
        draws.len() >= POINT_COUNT - 1,
    ensures
        r@ == perm_table(draws@),
        is_permutation(r@, POINT_COUNT as nat),
{
    let mut points: Vec<usize> = Vec::new();
    let mut i: usize = 0;
    while i < POINT_COUNT
        invariant
            i <= POINT_COUNT,
            points@ == identity_perm(i as nat),
        decreases POINT_COUNT - i,
    {
        points.push(i);
        i = i + 1;
        assert(points@ =~= identity_perm(i as nat));
    }
    proof {
        lemma_identity_permutes(POINT_COUNT as nat);
        lemma_shuffle_permutes(points@, draws@, POINT_COUNT - 1, POINT_COUNT as nat);
    }
    permute(&mut points, draws);
    points
}

/// The lattice coordinate `i` wrapped into the tables.
pub fn lattice_coord(i: i64) -> (r: usize)
    ensures
        r as int == wrap_coord(i as int),
        r < POINT_COUNT,
{
    if i >= 0 {
        ((i as u64) % 256) as usize
    } else {
        let n: u64 = (-(i + 1)) as u64;
        proof {
            assert(i as int == -(n as int) - 1);
            let q = (n as int) / 256;
            let m = (n as int) % 256;
            assert(n as int == 256 * q + m);
            assert(i as int == 256 * (-q - 1) + (255 - m));
        }
        (255 - n % 256) as usize
    }
}

proof fn lemma_xor_in_table(a: u64, b: u64, c: u64)
    requires
        a < 256,
        b < 256,
        c < 256,
    ensures
        a ^ b ^ c < 256,
{
    assert(a < 256 && b < 256 && c < 256 ==> a ^ b ^ c < 256) by (bit_vector);
}

/// The three permutation tables of a Perlin lattice, one per axis.
pub struct Perlin {
    perm_x: Vec<usize>,
    perm_y: Vec<usize>,
    perm_z: Vec<usize>,
}

impl Perlin {
    pub closed spec fn spec_perm_x(&self) -> Seq<usize> {
        self.perm_x@
    }

    pub closed spec fn spec_perm_y(&self) -> Seq<usize> {
        self.perm_y@
    }

    pub closed spec fn spec_perm_z(&self) -> Seq<usize> {
        self.perm_z@
    }

    /// Every table is a permutation of the lattice points.
    pub open spec fn wf(&self) -> bool {
        &&& is_permutation(self.spec_perm_x(), POINT_COUNT as nat)
        &&& is_permutation(self.spec_perm_y(), POINT_COUNT as nat)
        &&& is_permutation(self.spec_perm_z(), POINT_COUNT as nat)
    }

    /// Tables shuffled by a fresh run of random draws.
    pub fn new() -> (r: Self)
        ensures
            r.wf(),
    {
        let dx = random_draws(POINT_COUNT - 1);
        let dy = random_draws(POINT_COUNT - 1);
        let dz = random_draws(POINT_COUNT - 1);
        Self::from_draws(&dx, &dy, &dz)
    }

    /// Tables shuffled by the given draws, one run per axis.
    pub fn from_draws(dx: &Vec<u64>, dy: &Vec<u64>, dz: &Vec<u64>) -> (r: Self)
        requires
            dx.len() >= POINT_COUNT - 1,
            dy.len() >= POINT_COUNT - 1,
            dz.len() >= POINT_COUNT - 1,
        ensures
            r.wf(),
            r.spec_perm_x() == perm_table(dx@),
            r.spec_perm_y() == perm_table(dy@),
            r.spec_perm_z() == perm_table(dz@),
    {
        Perlin { perm_x: generate_perm(dx), perm_y: generate_perm(dy), perm_z: generate_perm(dz) }
    }

    /// Index of the gradient at lattice corner (i, j, k): the three tables,
    /// read at the wrapped coordinates, combined by exclusive or.
    pub fn corner(&self, i: i64, j: i64, k: i64) -> (r: usize)
        requires
            self.wf(),
        ensures
            r == self.spec_perm_x()[wrap_coord(i as int)] ^ self.spec_perm_y()[wrap_coord(
                j as int,
            )] ^ self.spec_perm_z()[wrap_coord(k as int)],
            r < POINT_COUNT,
    {
        let a = self.perm_x[lattice_coord(i)];
        let b = self.perm_y[lattice_coord(j)];
        let c = self.perm_z[lattice_coord(k)];
        proof {
            lemma_xor_in_table(a as u64, b as u64, c as u64);
            assert((a ^ b ^ c) as u64 == (a as u64) ^ (b as u64) ^ (c as u64)) by (bit_vector);
        }
        a ^ b ^ c
    }
}

} // verus!
