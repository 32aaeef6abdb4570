//! Index buffers of the built-in primitive shapes.

use vstd::prelude::*;

verus! {

/// A unit plane in the XZ plane, drawn as two triangles.
pub struct Plane;

/// A UV sphere sampled on a `XLONG` x `YLAT` grid of vertices.
pub struct Sphere;

/// The index of the vertex at grid cell (`i`, `j`) of the sphere.
pub open spec fn sphere_vertex(i: int, j: int) -> int {
    j * 30 + i
}

/// The `corner`-th entry (0..6) of the two triangles that cover the quad whose
/// lower-left vertex is `n`: `(n, n+1, n+X+1)` and `(n, n+X+1, n+X)`.
pub open spec fn quad_corner(n: int, corner: int) -> int {
    if corner == 0 || corner == 3 {
        n
    } else if corner == 1 {
        n + 1
    } else if corner == 2 || corner == 4 {
        n + 30 + 1
    } else {
        n + 30
    }
}

/// The `t`-th entry of the sphere index buffer: quads are laid out row by row
/// (`j` outer, `i` inner), six entries each.
pub open spec fn sphere_index_at(t: int) -> int {
    let quad = t / 6;
    quad_corner(sphere_vertex(quad % 29, quad / 29), t % 6)
}

impl Plane {
    /// The two triangles `(0, 1, 2)` and `(0, 2, 3)`.
    pub fn indices() -> (indices: Vec<u32>)
        ensures
            indices@ == seq![0u32, 1, 2, 0, 2, 3],
    {
        vec![0, 1, 2, 0, 2, 3]
    }
}

impl Sphere {
    pub const XLONG: usize = 30;
    pub const YLAT: usize = 30;

    /// Two triangles per grid quad, for every quad of the `(XLONG - 1) x (YLAT - 1)` grid.
    pub fn indices() -> (indices: Vec<u32>)
        ensures
            indices.len() == 6 * 29 * 29,
            forall|t: int| 0 <= t < indices.len() ==> indices@[t] == sphere_index_at(t),
    {
        let mut v: Vec<u32> = Vec::new();
        let mut j: usize = 0;
        while j < Self::YLAT - 1
            invariant
                j <= 29,
                v.len() == 174 * j,
                forall|t: int| 0 <= t < v.len() ==> v@[t] == sphere_index_at(t),
            decreases 29 - j,
        {
            let mut i: usize = 0;
            while i < Self::XLONG - 1
                invariant
                    j < 29,
                    i <= 29,
                    v.len() == 174 * j + 6 * i,
                    forall|t: int| 0 <= t < v.len() ==> v@[t] == sphere_index_at(t),
                decreases 29 - i,
            {
                let n: u32 = (j * Self::XLONG + i) as u32;
                let x: u32 = Self::XLONG as u32;
                let ghost base = v.len() as int;
                v.push(n);
                v.push(n + 1);
                v.push(n + x + 1);
                v.push(n);
                v.push(n + x + 1);
                v.push(n + x);
                proof {
                    assert forall|t: int| 0 <= t < v.len() implies v@[t] == sphere_index_at(t) by {
                        if t >= base {
                            assert((t / 6) == 29 * j + i);
                            assert((29 * j + i) % 29 == i);
                            assert((29 * j + i) / 29 == j);
                        }
                    }
                }
                i += 1;
            }
            j += 1;
        }
        v
    }
}


/// `indices` with the second and third entry of every complete triangle
/// exchanged, which reverses each triangle's winding; entries after the last
/// complete triangle stay.
pub open spec fn rewound(indices: Seq<u32>) -> Seq<u32> {
    Seq::new(
        indices.len(),
        |t: int|
            if t - t % 3 + 3 > indices.len() {
                indices[t]
            } else if t % 3 == 1 {
                indices[t + 1]
            } else if t % 3 == 2 {
                indices[t - 1]
            } else {
                indices[t]
            },
    )
}

/// Reverses the winding of every triangle, so that a closed mesh is seen
/// from inside (as the sky box and sky sphere are).
pub fn reverse_triangle_winding(indices: &mut Vec<u32>)
    ensures
        final(indices)@ == rewound(old(indices)@),
{
    let n = indices.len();
    let mut k: usize = 0;
    while n - k >= 3
        invariant
            n == indices.len(),
            n == old(indices)@.len(),
            k % 3 == 0,
            k <= n,
            forall|t: int| 0 <= t < k ==> indices@[t] == rewound(old(indices)@)[t],
            forall|t: int| k <= t < n ==> indices@[t] == old(indices)@[t],
        decreases n - k,
    {
        let second = indices[k + 1];
        let third = indices[k + 2];
        indices.set(k + 1, third);
        indices.set(k + 2, second);
        k += 3;
    }
    assert(indices@ =~= rewound(old(indices)@));
}

/// Reversing the winding twice gives the triangles back.
pub proof fn lemma_rewound_twice(indices: Seq<u32>)
    ensures
        rewound(rewound(indices)) == indices,
{
    assert(rewound(rewound(indices)) =~= indices);
}

/// Every complete triangle `(a, b, c)` becomes `(a, c, b)`, the last complete
/// one included; the entries after the last complete triangle stay, and the
/// length stays.
pub proof fn lemma_rewound_swaps_every_triangle(indices: Seq<u32>)
    ensures
        rewound(indices).len() == indices.len(),
        forall|j: int|
            0 <= j && 3 * j + 3 <= indices.len() ==> {
                &&& #[trigger] rewound(indices)[3 * j] == indices[3 * j]
                &&& rewound(indices)[3 * j + 1] == indices[3 * j + 2]
                &&& rewound(indices)[3 * j + 2] == indices[3 * j + 1]
            },
        forall|t: int|
            3 * (indices.len() / 3) <= t < indices.len() ==> #[trigger] rewound(indices)[t]
                == indices[t],
{
    let n = indices.len() as int;
    assert forall|j: int| 0 <= j && 3 * j + 3 <= n implies {
        &&& #[trigger] rewound(indices)[3 * j] == indices[3 * j]
        &&& rewound(indices)[3 * j + 1] == indices[3 * j + 2]
        &&& rewound(indices)[3 * j + 2] == indices[3 * j + 1]
    } by {
        assert((3 * j) % 3 == 0) by (nonlinear_arith) requires 0 <= j;
        assert((3 * j + 1) % 3 == 1) by (nonlinear_arith) requires 0 <= j;
        assert((3 * j + 2) % 3 == 2) by (nonlinear_arith) requires 0 <= j;
    }
    assert forall|t: int| 3 * (n / 3) <= t < n implies #[trigger] rewound(indices)[t] == indices[t] by {
        assert(t - t % 3 + 3 > n) by (nonlinear_arith)
            requires
                3 * (n / 3) <= t < n,
                0 <= n,
        {
            assert(n == 3 * (n / 3) + n % 3);
            assert(t == 3 * (t / 3) + t % 3);
            assert(0 <= t % 3 < 3);
            assert(0 <= n % 3 < 3);
            assert(t / 3 >= n / 3);
        }
    }
}

} // verus!
