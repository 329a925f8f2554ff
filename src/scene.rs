//! The per-frame, read-only view of what is to be drawn, and its partition
//! into chunks of models for concurrent drawing.
use vstd::prelude::*;
use crate::encoder::Geometry;
use crate::types::{Mat4, Vec3};

verus! {

/// The active camera: its projection, its view transform (looking from `eye`
/// along its forward direction), and its position.
#[derive(Clone, Copy, Debug, PartialEq, Eq)]
pub struct Camera {
    pub proj: Mat4,
    pub view: Mat4,
    pub eye: Vec3,
}

#[derive(Clone, Copy, Debug, PartialEq, Eq)]
pub struct DirectionalLight {
    pub direction: Vec3,
    pub color: Vec3,
}

#[derive(Clone, Copy, Debug, PartialEq, Eq)]
pub struct PointLight {
    pub center: Vec3,
    pub color: Vec3,
    pub intensity: u32,
}

#[derive(Clone, Copy, Debug, PartialEq, Eq)]
pub enum Light {
    Directional(DirectionalLight),
    Point(PointLight),
}

/// The texture handles of a surface material, one per channel.
#[derive(Clone, Copy, Debug, PartialEq, Eq)]
pub struct Material {
    pub albedo: u64,
    pub emission: u64,
    pub normal: u64,
    pub metallic: u64,
    pub roughness: u64,
    pub ambient_occlusion: u64,
    pub caveat: u64,
}

/// One renderable model: its mesh, its material and its world transform.
#[derive(Clone, Copy, Debug, PartialEq, Eq)]
pub struct Model {
    pub mesh: Geometry,
    pub material: Material,
    pub pos: Mat4,
}

/// What a frame draws.
#[derive(Debug)]
pub struct Scene {
    pub camera: Option<Camera>,
    pub lights: Vec<Light>,
    pub models: Vec<Model>,
}

/// The number of models in every chunk but the last when `len` models are
/// split into `n` chunks.
pub open spec fn chunk_size(len: nat, n: nat) -> nat
    recommends
        n > 0,
{
    if len % n == 0 {
        len / n
    } else {
        len / n + 1
    }
}

/// Where chunk `j` of `n` begins; chunk `j` ends where chunk `j + 1` begins,
/// and the last one ends at `len`.
pub open spec fn chunk_start(len: nat, n: nat, j: nat) -> nat
    decreases j,
{
    if j == 0 {
        0
    } else if j >= n {
        len
    } else {
        let s = chunk_start(len, n, (j - 1) as nat) + chunk_size(len, n);
        if s < len {
            s
        } else {
            len
        }
    }
}

/// The models of chunk `j`.
pub open spec fn chunk_of<T>(models: Seq<T>, n: nat, j: nat) -> Seq<T> {
    models.subrange(
        chunk_start(models.len(), n, j) as int,
        chunk_start(models.len(), n, j + 1) as int,
    )
}

/// All `n` chunks, in order.
pub open spec fn chunks_of<T>(models: Seq<T>, n: nat) -> Seq<Seq<T>> {
    Seq::new(n, |j: int| chunk_of(models, n, j as nat))
}

pub proof fn lemma_chunk_start_bounds(len: nat, n: nat, j: nat)
    requires
        n > 0,
    ensures
        chunk_start(len, n, j) <= len,
        j < n ==> chunk_start(len, n, j) <= chunk_start(len, n, j + 1),
    decreases j,
{
    if j > 0 {
        lemma_chunk_start_bounds(len, n, (j - 1) as nat);
    }
}

/// Splitting models into `n` contiguous chunks loses none and repeats none:
/// the chunks, joined in order, are the models, and so hold each model as
/// often as the models do.
pub proof fn lemma_chunks_cover<T>(models: Seq<T>, n: nat)
    requires
        n > 0,
    ensures
        chunks_of(models, n).flatten() == models,
        chunks_of(models, n).flatten().to_multiset() == models.to_multiset(),
{
    lemma_chunks_prefix(models, n, n);
    assert(chunks_of(models, n).take(n as int) =~= chunks_of(models, n));
    assert(chunk_start(models.len(), n, n) == models.len());
    assert(models.subrange(0, models.len() as int) =~= models);
}

proof fn lemma_chunks_prefix<T>(models: Seq<T>, n: nat, k: nat)
    requires
        n > 0,
        k <= n,
    ensures
        chunks_of(models, n).take(k as int).flatten() == models.subrange(
            0,
            chunk_start(models.len(), n, k) as int,
        ),
    decreases k,
{
    let len = models.len();
    if k == 0 {
        assert(chunks_of(models, n).take(0) =~= Seq::<Seq<T>>::empty());
        assert(models.subrange(0, 0) =~= Seq::<T>::empty());
    } else {
        let k1 = (k - 1) as nat;
        lemma_chunks_prefix(models, n, k1);
        lemma_chunk_start_bounds(len, n, k1);
        lemma_chunk_start_bounds(len, n, k);
        let c = chunks_of(models, n);
        assert(c.take(k as int) =~= c.take(k1 as int).push(c[k1 as int]));
        c.take(k1 as int).lemma_flatten_push(c[k1 as int]);
        assert(models.subrange(0, chunk_start(len, n, k1) as int) + chunk_of(models, n, k1)
            =~= models.subrange(0, chunk_start(len, n, k) as int));
    }
}

/// Computes the `n` chunks of `len` models as `(start, end)` index pairs.
pub fn chunk_bounds(len: usize, n: usize) -> (r: Vec<(usize, usize)>)
    requires
        n > 0,
    ensures
        r@.len() == n,
        forall|j: int|
            0 <= j < n ==> #[trigger] r@[j] == (
                chunk_start(len as nat, n as nat, j as nat) as usize,
                chunk_start(len as nat, n as nat, (j + 1) as nat) as usize,
            ),
        forall|j: int| 0 <= j < n ==> #[trigger] r@[j].0 <= r@[j].1 <= len,
{
    let size: usize = if len % n == 0 {
        len / n
    } else {
        assert(len / n < len) by (nonlinear_arith)
            requires
                n > 0,
                len % n != 0,
        {
            vstd::arithmetic::div_mod::lemma_fundamental_div_mod(len as int, n as int);
        };
        len / n + 1
    };
    assert(size == chunk_size(len as nat, n as nat));
    let mut r: Vec<(usize, usize)> = Vec::new();
    let mut start: usize = 0;
    let mut j: usize = 0;
    while j < n
        invariant
            j <= n,
            n > 0,
            size == chunk_size(len as nat, n as nat),
            start == chunk_start(len as nat, n as nat, j as nat),
            r@.len() == j,
            forall|i: int|
                0 <= i < j ==> #[trigger] r@[i] == (
                    chunk_start(len as nat, n as nat, i as nat) as usize,
                    chunk_start(len as nat, n as nat, (i + 1) as nat) as usize,
                ),
            forall|i: int| 0 <= i < j ==> #[trigger] r@[i].0 <= r@[i].1 <= len,
        decreases n - j,
    {
        proof {
            lemma_chunk_start_bounds(len as nat, n as nat, j as nat);
            lemma_chunk_start_bounds(len as nat, n as nat, (j + 1) as nat);
        }
        let end: usize = if j + 1 == n {
            len
        } else if size < len - start {
            start + size
        } else {
            len
        };
        r.push((start, end));
        start = end;
        j = j + 1;
    }
    r
}

impl Scene {
    /// An empty scene: no camera, no lights, no models.
    pub fn new() -> (s: Scene)
        ensures
            s.camera is None,
            s.lights@.len() == 0,
            s.models@.len() == 0,
    {
        Scene { camera: None, lights: Vec::new(), models: Vec::new() }
    }

    /// Splits the models into `n` contiguous chunks, as index ranges.
    pub fn model_chunks(&self, n: usize) -> (r: Vec<(usize, usize)>)
        requires
            n > 0,
        ensures
            r@.len() == n,
            forall|j: int|
                0 <= j < n ==> #[trigger] r@[j] == (
                    chunk_start(self.models@.len(), n as nat, j as nat) as usize,
                    chunk_start(self.models@.len(), n as nat, (j + 1) as nat) as usize,
                ),
            forall|j: int| 0 <= j < n ==> #[trigger] r@[j].0 <= r@[j].1 <= self.models@.len(),
    {
        chunk_bounds(self.models.len(), n)
    }
}

} // verus!
