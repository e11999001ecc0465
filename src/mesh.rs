//! Triangles of a mesh, as triples of vertex numbers, from the flat index
//! array that a mesh loader hands over.

use vstd::prelude::*;

verus! {

/// The first `count` entries of `indices` all name one of `n_vertices` vertices.
pub open spec fn indices_in_range(indices: Seq<u32>, count: nat, n_vertices: nat) -> bool {
    forall|k: int| 0 <= k < count ==> (#[trigger] indices[k]) < n_vertices
}

/// The triangle made of entries `a`, `b` and `c` of `indices`.
pub open spec fn corner_triple(indices: Seq<u32>, a: int, b: int, c: int) -> [usize; 3] {
    [indices[a] as usize, indices[b] as usize, indices[c] as usize]
}

/// Faces `2 * q` and `2 * q + 1` are the two halves of quad `q`: corners
/// `0 1 2` and `0 2 3` of its four indices.
pub open spec fn quad_split(faces: Seq<[usize; 3]>, indices: Seq<u32>, q: int) -> bool {
    &&& faces[2 * q] == corner_triple(indices, 4 * q, 4 * q + 1, 4 * q + 2)
    &&& faces[2 * q + 1] == corner_triple(indices, 4 * q, 4 * q + 2, 4 * q + 3)
}

/// One triangle per three indices. A trailing group of fewer than three is
/// ignored; `None` when an index in a full group names no vertex.
pub fn triangle_faces(indices: &Vec<u32>, n_vertices: usize) -> (r: Option<Vec<[usize; 3]>>)
    ensures
        r is Some <==> indices_in_range(indices@, 3 * (indices@.len() / 3), n_vertices as nat),
        r matches Some(faces) ==> {
            &&& faces@.len() == indices@.len() / 3
            &&& forall|f: int|
                0 <= f < faces@.len() ==> #[trigger] faces@[f] == corner_triple(
                    indices@,
                    3 * f,
                    3 * f + 1,
                    3 * f + 2,
                )
        },
{
    let len = indices.len();
    let n_faces = len / 3;
    let mut faces: Vec<[usize; 3]> = Vec::new();
    let mut f: usize = 0;
    while f < n_faces
        invariant
            n_faces == indices@.len() / 3,
            len == indices@.len(),
            3 * n_faces <= len,
            f <= n_faces,
            faces@.len() == f,
            indices_in_range(indices@, 3 * f as nat, n_vertices as nat),
            forall|g: int|
                0 <= g < f ==> #[trigger] faces@[g] == corner_triple(
                    indices@,
                    3 * g,
                    3 * g + 1,
                    3 * g + 2,
                ),
        decreases n_faces - f,
    {
        let a = indices[3 * f];
        let b = indices[3 * f + 1];
        let c = indices[3 * f + 2];
        if a as usize >= n_vertices || b as usize >= n_vertices || c as usize >= n_vertices {
            proof {
                assert(!indices_in_range(indices@, 3 * n_faces as nat, n_vertices as nat)) by {
                    if a as usize >= n_vertices {
                        assert(indices@[3 * f as int] == a);
                    } else if b as usize >= n_vertices {
                        assert(indices@[3 * f + 1] == b);
                    } else {
                        assert(indices@[3 * f + 2] == c);
                    }
                }
            }
            return None;
        }
        faces.push([a as usize, b as usize, c as usize]);
        proof {
            assert forall|k: int| 0 <= k < 3 * (f + 1) implies (#[trigger] indices@[k])
                < n_vertices by {
                if k >= 3 * f {
                    assert(k == 3 * f || k == 3 * f + 1 || k == 3 * f + 2);
                }
            }
        }
        f = f + 1;
    }
    Some(faces)
}

/// Two triangles per four indices, each quad `a b c d` split along its
/// diagonal into `a b c` and `a c d`. A trailing group of fewer than four is
/// ignored; `None` when an index in a full group names no vertex.
pub fn quad_faces(indices: &Vec<u32>, n_vertices: usize) -> (r: Option<Vec<[usize; 3]>>)
    ensures
        r is Some <==> indices_in_range(indices@, 4 * (indices@.len() / 4), n_vertices as nat),
        r matches Some(faces) ==> {
            &&& faces@.len() == 2 * (indices@.len() / 4)
            &&& forall|q: int|
                0 <= q < indices@.len() / 4 ==> #[trigger] quad_split(faces@, indices@, q)
        },
{
    let len = indices.len();
    let n_quads = len / 4;
    let mut faces: Vec<[usize; 3]> = Vec::new();
    let mut q: usize = 0;
    while q < n_quads
        invariant
            n_quads == indices@.len() / 4,
            len == indices@.len(),
            4 * n_quads <= len,
            q <= n_quads,
            faces@.len() == 2 * q,
            indices_in_range(indices@, 4 * q as nat, n_vertices as nat),
            forall|g: int| 0 <= g < q ==> #[trigger] quad_split(faces@, indices@, g),
        decreases n_quads - q,
    {
        let a = indices[4 * q];
        let b = indices[4 * q + 1];
        let c = indices[4 * q + 2];
        let d = indices[4 * q + 3];
        if a as usize >= n_vertices || b as usize >= n_vertices || c as usize >= n_vertices
            || d as usize >= n_vertices {
            proof {
                assert(!indices_in_range(indices@, 4 * n_quads as nat, n_vertices as nat)) by {
                    if a as usize >= n_vertices {
                        assert(indices@[4 * q as int] == a);
                    } else if b as usize >= n_vertices {
                        assert(indices@[4 * q + 1] == b);
                    } else if c as usize >= n_vertices {
                        assert(indices@[4 * q + 2] == c);
                    } else {
                        assert(indices@[4 * q + 3] == d);
                    }
                }
            }
            return None;
        }
        let ghost prev = faces@;
        faces.push([a as usize, b as usize, c as usize]);
        faces.push([a as usize, c as usize, d as usize]);
        proof {
            assert forall|k: int| 0 <= k < 4 * (q + 1) implies (#[trigger] indices@[k])
                < n_vertices by {
                if k >= 4 * q {
                    assert(k == 4 * q || k == 4 * q + 1 || k == 4 * q + 2 || k == 4 * q + 3);
                }
            }
            assert forall|g: int| 0 <= g < q + 1 implies #[trigger] quad_split(
                faces@,
                indices@,
                g,
            ) by {
                if g < q {
                    assert(quad_split(prev, indices@, g));
                    assert(faces@[2 * g] == prev[2 * g] && faces@[2 * g + 1] == prev[2 * g + 1]);
                } else {
                    assert(faces@[2 * g] == [a as usize, b as usize, c as usize]);
                    assert(faces@[2 * g + 1] == [a as usize, c as usize, d as usize]);
                }
            }
        }
        q = q + 1;
    }
    Some(faces)
}

} // verus!
