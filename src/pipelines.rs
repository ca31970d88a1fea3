//! The pipeline cache, keyed by (vertex shader, fragment shader) names, and
//! the plan of the draws that a frame's command buffer records.
use vstd::prelude::*;

use crate::batch::DynamicMeshBuffers;

verus! {

/// A material: its name and the names of its two shaders.
#[derive(Clone, Debug)]
pub struct Material {
    pub name: String,
    pub vertex_shader: String,
    pub fragment_shader: String,
}

/// One cached pipeline and its key.
#[derive(Debug)]
pub struct PipelineEntry<P> {
    pub vertex_shader: String,
    pub fragment_shader: String,
    pub pipeline: P,
}

pub open spec fn entry_key<P>(e: PipelineEntry<P>) -> (Seq<char>, Seq<char>) {
    (e.vertex_shader@, e.fragment_shader@)
}

/// Compiled pipelines, at most one per pair of shader names.
#[derive(Debug)]
pub struct PipelineCache<P> {
    pub entries: Vec<PipelineEntry<P>>,
}

/// The index of the first name in `names` equal to `name`.
pub open spec fn is_first_index(names: Seq<String>, name: Seq<char>, k: int) -> bool {
    &&& 0 <= k < names.len()
    &&& names[k]@ == name
    &&& forall|m: int| 0 <= m < k ==> (#[trigger] names[m])@ != name
}

pub open spec fn has_name(names: Seq<String>, name: Seq<char>) -> bool {
    exists|k: int| 0 <= k < names.len() && (#[trigger] names[k])@ == name
}

/// The position of the first of `names` equal to `name`, if any.
pub fn find_name(names: &Vec<String>, name: &String) -> (r: Option<usize>)
    ensures
        match r {
            Some(k) => is_first_index(names@, name@, k as int),
            None => !has_name(names@, name@),
        },
{
    let mut k: usize = 0;
    while k < names.len()
        invariant
            k <= names.len(),
            forall|m: int| 0 <= m < k ==> (#[trigger] names@[m])@ != name@,
        decreases names.len() - k,
    {
        if names[k] == *name {
            return Some(k);
        }
        k = k + 1;
    }
    None
}

impl<P> PipelineCache<P> {
    /// The keys of the cache, in order.
    pub open spec fn keys(&self) -> Seq<(Seq<char>, Seq<char>)> {
        self.entries@.map_values(|e: PipelineEntry<P>| entry_key(e))
    }

    pub open spec fn wf(&self) -> bool {
        self.keys().no_duplicates()
    }

    pub open spec fn has_key(&self, vs: Seq<char>, fs: Seq<char>) -> bool {
        self.keys().contains((vs, fs))
    }

    /// An empty cache.
    pub fn new() -> (r: PipelineCache<P>)
        ensures
            r.wf(),
            r.entries@.len() == 0,
    {
        PipelineCache { entries: Vec::new() }
    }

    /// The position of the pipeline keyed (`vs`, `fs`), if there is one.
    pub fn find(&self, vs: &String, fs: &String) -> (r: Option<usize>)
        ensures
            match r {
                Some(i) => i < self.entries@.len() && self.keys()[i as int] == (vs@, fs@),
                None => !self.has_key(vs@, fs@),
            },
    {
        let mut i: usize = 0;
        while i < self.entries.len()
            invariant
                i <= self.entries@.len(),
                forall|m: int| 0 <= m < i ==> self.keys()[m] != (vs@, fs@),
            decreases self.entries@.len() - i,
        {
            let e = &self.entries[i];
            if e.vertex_shader == *vs && e.fragment_shader == *fs {
                return Some(i);
            }
            i = i + 1;
        }
        None
    }

    /// The position of the pipeline keyed (`vs`, `fs`); when there is none,
    /// `build` makes it and it is added at the end.
    pub fn get_or_build<F: Fn() -> P>(&mut self, vs: &String, fs: &String, build: F) -> (r: usize)
        requires
            old(self).wf(),
            build.requires(()),
        ensures
            final(self).wf(),
            r < final(self).entries@.len(),
            final(self).keys()[r as int] == (vs@, fs@),
            old(self).has_key(vs@, fs@) ==> final(self).entries@ == old(self).entries@,
            !old(self).has_key(vs@, fs@) ==> {
                &&& final(self).entries@.len() == old(self).entries@.len() + 1
                &&& final(self).entries@.subrange(0, old(self).entries@.len() as int)
                    == old(self).entries@
                &&& build.ensures((), final(self).entries@[r as int].pipeline)
            },
    {
        match self.find(vs, fs) {
            Some(i) => {
                proof {
                    assert(self.keys().contains((vs@, fs@)));
                }
                i
            },
            None => {
                let pipeline = build();
                let ghost old_keys = self.keys();
                self.entries.push(
                    PipelineEntry { vertex_shader: vs.clone(), fragment_shader: fs.clone(), pipeline },
                );
                proof {
                    assert(self.keys() =~= old_keys.push((vs@, fs@)));
                    assert(self.entries@.subrange(0, self.entries@.len() - 1) =~= old(self).entries@);
                }
                self.entries.len() - 1
            },
        }
    }
}


/// Both shaders of the pipeline keyed by entry `i` are among `names`.
pub open spec fn shaders_known<P>(names: Seq<String>, entries: Seq<PipelineEntry<P>>, i: int) -> bool {
    has_name(names, entries[i].vertex_shader@) && has_name(names, entries[i].fragment_shader@)
}

/// `pipeline` is what `build` made of the first positions in `names` of the
/// shaders of `entry`.
pub open spec fn rebuilt_from<P, F: Fn(usize, usize) -> P>(
    names: Seq<String>,
    entry: PipelineEntry<P>,
    pipeline: P,
    build: F,
) -> bool {
    exists|v: usize, f: usize|
        is_first_index(names, entry.vertex_shader@, v as int) && is_first_index(
            names,
            entry.fragment_shader@,
            f as int,
        ) && build.ensures((v, f), pipeline)
}

/// Rebuilds every pipeline of `cache` against the current viewport and
/// render pass, in place: `build` gets the positions in `shaders` of the
/// entry's vertex and fragment shader and returns the new pipeline.
///
/// The keys stay as they were, only the pipelines are replaced. If a shader
/// of some entry is not in `shaders`, nothing is rebuilt and the first such
/// entry is returned as the error.
pub fn recreate_pipelines<P, F: Fn(usize, usize) -> P>(
    shaders: &Vec<String>,
    cache: &mut PipelineCache<P>,
    build: F,
) -> (r: Result<(), usize>)
    requires
        forall|v: usize, f: usize| build.requires((v, f)),
    ensures
        match r {
            Ok(()) => {
                &&& forall|i: int|
                    0 <= i < old(cache).entries@.len() ==> shaders_known(shaders@, old(cache).entries@, i)
                &&& final(cache).keys() == old(cache).keys()
                &&& forall|i: int|
                    0 <= i < final(cache).entries@.len() ==> #[trigger] rebuilt_from(
                        shaders@,
                        old(cache).entries@[i],
                        final(cache).entries@[i].pipeline,
                        build,
                    )
            },
            Err(k) => {
                &&& k < old(cache).entries@.len()
                &&& !shaders_known(shaders@, old(cache).entries@, k as int)
                &&& forall|i: int| 0 <= i < k ==> shaders_known(shaders@, old(cache).entries@, i)
                &&& final(cache).entries@ == old(cache).entries@
            },
        },
{
    let n = cache.entries.len();
    let mut vpos: Vec<usize> = Vec::new();
    let mut fpos: Vec<usize> = Vec::new();
    let mut i: usize = 0;
    while i < n
        invariant
            n == cache.entries@.len(),
            cache.entries@ == old(cache).entries@,
            i <= n,
            vpos@.len() == i,
            fpos@.len() == i,
            forall|m: int|
                0 <= m < i ==> is_first_index(shaders@, old(cache).entries@[m].vertex_shader@, #[trigger] vpos@[m] as int),
            forall|m: int|
                0 <= m < i ==> is_first_index(shaders@, old(cache).entries@[m].fragment_shader@, #[trigger] fpos@[m] as int),
        decreases n - i,
    {
        let v = find_name(shaders, &cache.entries[i].vertex_shader);
        let f = find_name(shaders, &cache.entries[i].fragment_shader);
        match (v, f) {
            (Some(v), Some(f)) => {
                vpos.push(v);
                fpos.push(f);
            },
            _ => {
                proof {
                    assert forall|m: int| 0 <= m < i implies shaders_known(shaders@, old(cache).entries@, m) by {
                        assert(shaders@[vpos@[m] as int]@ == old(cache).entries@[m].vertex_shader@);
                        assert(shaders@[fpos@[m] as int]@ == old(cache).entries@[m].fragment_shader@);
                    }
                }
                return Err(i);
            },
        }
        i = i + 1;
    }
    let mut i: usize = 0;
    while i < n
        invariant
            n == cache.entries@.len(),
            i <= n,
            vpos@.len() == n,
            fpos@.len() == n,
            forall|v: usize, f: usize| build.requires((v, f)),
            forall|m: int|
                0 <= m < n ==> is_first_index(shaders@, old(cache).entries@[m].vertex_shader@, #[trigger] vpos@[m] as int),
            forall|m: int|
                0 <= m < n ==> is_first_index(shaders@, old(cache).entries@[m].fragment_shader@, #[trigger] fpos@[m] as int),
            forall|m: int| 0 <= m < n ==> entry_key(#[trigger] cache.entries@[m]) == entry_key(old(cache).entries@[m]),
            forall|m: int| i <= m < n ==> #[trigger] cache.entries@[m] == old(cache).entries@[m],
            forall|m: int|
                0 <= m < i ==> build.ensures((vpos@[m], fpos@[m]), #[trigger] cache.entries@[m].pipeline),
        decreases n - i,
    {
        let pipeline = build(vpos[i], fpos[i]);
        let vs = cache.entries[i].vertex_shader.clone();
        let fs = cache.entries[i].fragment_shader.clone();
        cache.entries.set(i, PipelineEntry { vertex_shader: vs, fragment_shader: fs, pipeline });
        i = i + 1;
    }
    proof {
        assert(cache.keys() =~= old(cache).keys()) by {
            assert forall|m: int| 0 <= m < n implies cache.keys()[m] == old(cache).keys()[m] by {
                assert(entry_key(cache.entries@[m]) == entry_key(old(cache).entries@[m]));
            }
        }
        assert forall|m: int| 0 <= m < n implies shaders_known(shaders@, old(cache).entries@, m) by {
            assert(shaders@[vpos@[m] as int]@ == old(cache).entries@[m].vertex_shader@);
            assert(shaders@[fpos@[m] as int]@ == old(cache).entries@[m].fragment_shader@);
        }
        assert forall|m: int| 0 <= m < n implies #[trigger] rebuilt_from(
            shaders@,
            old(cache).entries@[m],
            cache.entries@[m].pipeline,
            build,
        ) by {
            assert(is_first_index(shaders@, old(cache).entries@[m].vertex_shader@, vpos@[m] as int));
            assert(is_first_index(shaders@, old(cache).entries@[m].fragment_shader@, fpos@[m] as int));
            assert(build.ensures((vpos@[m], fpos@[m]), cache.entries@[m].pipeline));
        }
    }
    Ok(())
}


/// One draw of a frame: a material with a batch, and the position in the
/// cache of its pipeline.
#[derive(Clone, Copy, Debug, PartialEq, Eq, Structural)]
pub struct DrawStep {
    pub material: usize,
    pub pipeline: usize,
}

pub open spec fn material_key(m: Material) -> (Seq<char>, Seq<char>) {
    (m.vertex_shader@, m.fragment_shader@)
}

/// The draws of one frame: one per material whose batch is set, in the
/// order of `materials`; a material with an unset batch is skipped. If a
/// material to be drawn has no pipeline in `cache`, the first such one is
/// returned as the error.
pub fn plan_draws<B, P>(
    materials: &Vec<Material>,
    batches: &Vec<DynamicMeshBuffers<B>>,
    cache: &PipelineCache<P>,
) -> (r: Result<Vec<DrawStep>, usize>)
    requires
        materials@.len() == batches@.len(),
    ensures
        match r {
            Ok(steps) => {
                &&& forall|k: int|
                    0 <= k < batches@.len() && (#[trigger] batches@[k]).batch is Some ==> cache.has_key(
                        material_key(materials@[k]).0,
                        material_key(materials@[k]).1,
                    )
                &&& forall|p: int|
                    0 <= p < steps@.len() ==> {
                        let s = #[trigger] steps@[p];
                        &&& s.material < batches@.len()
                        &&& batches@[s.material as int].batch is Some
                        &&& s.pipeline < cache.entries@.len()
                        &&& cache.keys()[s.pipeline as int] == material_key(materials@[s.material as int])
                    }
                &&& forall|p: int, q: int|
                    0 <= p < q < steps@.len() ==> (#[trigger] steps@[p]).material < (#[trigger] steps@[q]).material
                &&& forall|k: int|
                    0 <= k < batches@.len() && (#[trigger] batches@[k]).batch is Some ==> exists|p: int|
                        0 <= p < steps@.len() && (#[trigger] steps@[p]).material == k
            },
            Err(k) => {
                &&& k < batches@.len()
                &&& batches@[k as int].batch is Some
                &&& !cache.has_key(material_key(materials@[k as int]).0, material_key(materials@[k as int]).1)
                &&& forall|j: int|
                    0 <= j < k && (#[trigger] batches@[j]).batch is Some ==> cache.has_key(
                        material_key(materials@[j]).0,
                        material_key(materials@[j]).1,
                    )
            },
        },
{
    let mut steps: Vec<DrawStep> = Vec::new();
    let mut k: usize = 0;
    while k < batches.len()
        invariant
            materials@.len() == batches@.len(),
            k <= batches@.len(),
            forall|j: int|
                0 <= j < k && (#[trigger] batches@[j]).batch is Some ==> cache.has_key(
                    material_key(materials@[j]).0,
                    material_key(materials@[j]).1,
                ),
            forall|p: int|
                0 <= p < steps@.len() ==> {
                    let s = #[trigger] steps@[p];
                    &&& s.material < k
                    &&& batches@[s.material as int].batch is Some
                    &&& s.pipeline < cache.entries@.len()
                    &&& cache.keys()[s.pipeline as int] == material_key(materials@[s.material as int])
                },
            forall|p: int, q: int|
                0 <= p < q < steps@.len() ==> (#[trigger] steps@[p]).material < (#[trigger] steps@[q]).material,
            forall|j: int|
                0 <= j < k && (#[trigger] batches@[j]).batch is Some ==> exists|p: int|
                    0 <= p < steps@.len() && (#[trigger] steps@[p]).material == j,
        decreases batches@.len() - k,
    {
        if batches[k].is_complete() {
            let m = &materials[k];
            match cache.find(&m.vertex_shader, &m.fragment_shader) {
                Some(i) => {
                    proof {
                        assert(cache.keys().contains(cache.keys()[i as int]));
                    }
                    let ghost before = steps@;
                    steps.push(DrawStep { material: k, pipeline: i });
                    proof {
                        assert forall|j: int| 0 <= j < k + 1 && (#[trigger] batches@[j]).batch is Some implies exists|p: int|
                            0 <= p < steps@.len() && (#[trigger] steps@[p]).material == j by {
                            if j < k {
                                let p = choose|p: int| 0 <= p < before.len() && (#[trigger] before[p]).material == j;
                                assert(steps@[p] == before[p]);
                            } else {
                                assert(steps@[steps@.len() - 1].material == j);
                            }
                        }
                    }
                },
                None => {
                    return Err(k);
                },
            }
        }
        k = k + 1;
    }
    Ok(steps)
}

} // verus!
