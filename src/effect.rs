//! Shading effects: the declarations a pass makes of its program's resources,
//! and their check against what the compiled program actually uses.
use vstd::prelude::*;
use crate::error::{Error, ErrorView};
use crate::vertex::{Element, NamedAttribute};

verus! {

/// How a sampler filters.
#[derive(Clone, Copy, Debug, PartialEq, Eq)]
pub enum FilterMethod {
    Scale,
    Mipmap,
    Bilinear,
    Trilinear,
    Anisotropic(u8),
}

/// How a sampler treats coordinates outside the texture.
#[derive(Clone, Copy, Debug, PartialEq, Eq)]
pub enum WrapMode {
    Tile,
    Mirror,
    Clamp,
    Border,
}

/// The depth test of an output.
#[derive(Clone, Copy, Debug, PartialEq, Eq)]
pub enum DepthMode {
    LessEqualTest,
    LessEqualWrite,
}

/// The names a compiled program uses, by kind, as its reflection reports them,
/// and the device handle of the program.
#[derive(Debug)]
pub struct Program {
    pub handle: u64,
    pub constant_buffers: Vec<String>,
    pub globals: Vec<String>,
    pub samplers: Vec<String>,
    pub textures: Vec<String>,
    pub attributes: Vec<String>,
    pub outputs: Vec<String>,
}

pub open spec fn names(v: Seq<String>) -> Seq<Seq<char>> {
    v.map_values(|s: String| s@)
}

/// `declared[i]` is a name that `used` lacks. The empty name stands for an
/// unbound slot and is never missing.
pub open spec fn is_missing(name: Seq<char>, used: Seq<Seq<char>>) -> bool {
    name.len() > 0 && !used.contains(name)
}

/// The first name of `declared` that `used` lacks.
pub open spec fn first_missing(declared: Seq<Seq<char>>, used: Seq<Seq<char>>) -> Option<Seq<char>>
    decreases declared.len(),
{
    if declared.len() == 0 {
        None
    } else {
        match first_missing(declared.drop_last(), used) {
            Some(n) => Some(n),
            None => if is_missing(declared.last(), used) {
                Some(declared.last())
            } else {
                None
            },
        }
    }
}

/// The first name missing from its counterpart, going through the pairs in order.
pub open spec fn first_missing_of(pairs: Seq<(Seq<Seq<char>>, Seq<Seq<char>>)>) -> Option<
    Seq<char>,
>
    decreases pairs.len(),
{
    if pairs.len() == 0 {
        None
    } else {
        match first_missing(pairs[0].0, pairs[0].1) {
            Some(n) => Some(n),
            None => first_missing_of(pairs.drop_first()),
        }
    }
}

/// Accumulates what an effect declares before it is bound to a program.
#[derive(Debug)]
pub struct EffectBuilder {
    vertex_src: Vec<u8>,
    fragment_src: Vec<u8>,
    const_bufs: Vec<String>,
    const_buf_sizes: Vec<(usize, usize)>,
    globals: Vec<String>,
    samplers: Vec<String>,
    sampler_modes: Vec<(FilterMethod, WrapMode)>,
    textures: Vec<String>,
    attributes: Vec<String>,
    attribute_elements: Vec<Element>,
    vertex_stride: u32,
    vertex_slot: u8,
    outputs: Vec<String>,
    output_depths: Vec<Option<DepthMode>>,
}

/// An effect bound to a compiled program. Its declarations are those of the
/// builder it was made from, every one of them resolved.
#[derive(Debug)]
pub struct Effect {
    program: u64,
    layout: EffectBuilder,
}

/// What an effect builder has declared.
pub struct EffectDecl {
    pub vertex_src: Seq<u8>,
    pub fragment_src: Seq<u8>,
    pub const_bufs: Seq<Seq<char>>,
    /// Per constant buffer: the size of one element in bytes and the number of elements.
    pub const_buf_sizes: Seq<(usize, usize)>,
    pub globals: Seq<Seq<char>>,
    pub samplers: Seq<Seq<char>>,
    pub sampler_modes: Seq<(FilterMethod, WrapMode)>,
    pub textures: Seq<Seq<char>>,
    pub attributes: Seq<Seq<char>>,
    pub attribute_elements: Seq<Element>,
    pub vertex_stride: u32,
    pub vertex_slot: u8,
    pub outputs: Seq<Seq<char>>,
    pub output_depths: Seq<Option<DepthMode>>,
}

/// Whether `used` holds `name`.
fn contains_name(used: &Vec<String>, name: &String) -> (r: bool)
    ensures
        r == names(used@).contains(name@),
{
    let mut i: usize = 0;
    while i < used.len()
        invariant
            i <= used@.len(),
            forall|j: int| 0 <= j < i ==> used@[j]@ != name@,
        decreases used@.len() - i,
    {
        if used[i] == *name {
            assert(names(used@)[i as int] == name@);
            return true;
        }
        i = i + 1;
    }
    assert forall|j: int| 0 <= j < names(used@).len() implies names(used@)[j] != name@ by {
        assert(names(used@)[j] == used@[j]@);
    }
    false
}

/// The first name of `declared` that `used` lacks.
fn missing_name(declared: &Vec<String>, used: &Vec<String>) -> (r: Option<String>)
    ensures
        r is None <==> first_missing(names(declared@), names(used@)) is None,
        r matches Some(n) ==> first_missing(names(declared@), names(used@)) == Some(n@),
{
    let mut i: usize = 0;
    while i < declared.len()
        invariant
            i <= declared@.len(),
            first_missing(names(declared@.take(i as int)), names(used@)) is None,
        decreases declared@.len() - i,
    {
        let name = &declared[i];
        proof {
            assert(declared@.take(i + 1) =~= declared@.take(i as int).push(declared@[i as int]));
            lemma_names_push(declared@.take(i as int), declared@[i as int]);
            assert(names(declared@.take(i + 1)).drop_last() =~= names(declared@.take(i as int)));
        }
        if !name.as_str().is_empty() && !contains_name(used, name) {
            proof {
                lemma_first_missing_prefix(names(declared@), names(used@), i + 1);
                assert(names(declared@).take(i + 1) =~= names(declared@.take(i + 1)));
            }
            return Some(name.clone());
        }
        i = i + 1;
    }
    assert(declared@.take(i as int) =~= declared@);
    None
}

/// Once a prefix has a missing name, the whole sequence has the same first one.
proof fn lemma_first_missing_prefix(declared: Seq<Seq<char>>, used: Seq<Seq<char>>, k: int)
    requires
        0 <= k <= declared.len(),
        first_missing(declared.take(k), used) is Some,
    ensures
        first_missing(declared, used) == first_missing(declared.take(k), used),
    decreases declared.len(),
{
    if k < declared.len() {
        assert(declared.drop_last().take(k) =~= declared.take(k));
        lemma_first_missing_prefix(declared.drop_last(), used, k);
    } else {
        assert(declared.take(k) =~= declared);
    }
}

proof fn lemma_names_push(before: Seq<String>, s: String)
    ensures
        names(before.push(s)) == names(before).push(s@),
{
    assert(names(before.push(s)) =~= names(before).push(s@));
}

impl View for EffectBuilder {
    type V = EffectDecl;

    closed spec fn view(&self) -> EffectDecl {
        EffectDecl {
            vertex_src: self.vertex_src@,
            fragment_src: self.fragment_src@,
            const_bufs: names(self.const_bufs@),
            const_buf_sizes: self.const_buf_sizes@,
            globals: names(self.globals@),
            samplers: names(self.samplers@),
            sampler_modes: self.sampler_modes@,
            textures: names(self.textures@),
            attributes: names(self.attributes@),
            attribute_elements: self.attribute_elements@,
            vertex_stride: self.vertex_stride,
            vertex_slot: self.vertex_slot,
            outputs: names(self.outputs@),
            output_depths: self.output_depths@,
        }
    }
}

impl EffectBuilder {
    /// The declared names, each against the names of its kind in `p`.
    pub open spec fn declared_pairs(&self, p: Program) -> Seq<(Seq<Seq<char>>, Seq<Seq<char>>)> {
        seq![
            (self@.const_bufs, names(p.constant_buffers@)),
            (self@.globals, names(p.globals@)),
            (self@.samplers, names(p.samplers@)),
            (self@.textures, names(p.textures@)),
            (self@.attributes, names(p.attributes@)),
            (self@.outputs, names(p.outputs@)),
        ]
    }

    /// The names `p` uses, each against the declared names of its kind.
    pub open spec fn used_pairs(&self, p: Program) -> Seq<(Seq<Seq<char>>, Seq<Seq<char>>)> {
        seq![
            (names(p.constant_buffers@), self@.const_bufs),
            (names(p.globals@), self@.globals),
            (names(p.samplers@), self@.samplers),
            (names(p.textures@), self@.textures),
            (names(p.attributes@), self@.attributes),
            (names(p.outputs@), self@.outputs),
        ]
    }

    /// Why binding this builder to `p` fails, if it does: first a declared
    /// name that `p` lacks, then a name `p` uses that is not declared.
    pub open spec fn binding_error(&self, p: Program) -> Option<ErrorView> {
        match first_missing_of(self.declared_pairs(p)) {
            Some(n) => Some(ErrorView::UnresolvedName(n)),
            None => match first_missing_of(self.used_pairs(p)) {
                Some(n) => Some(ErrorView::UnboundName(n)),
                None => None,
            },
        }
    }

    /// Starts an effect with one vertex and one fragment shader and no declarations.
    pub fn new_simple_prog(vertex_src: Vec<u8>, fragment_src: Vec<u8>) -> (r: EffectBuilder)
        ensures
            r@ == (EffectDecl {
                vertex_src: vertex_src@,
                fragment_src: fragment_src@,
                const_bufs: seq![],
                const_buf_sizes: seq![],
                globals: seq![],
                samplers: seq![],
                sampler_modes: seq![],
                textures: seq![],
                attributes: seq![],
                attribute_elements: seq![],
                vertex_stride: 0,
                vertex_slot: 0,
                outputs: seq![],
                output_depths: seq![],
            }),
    {
        let r = EffectBuilder {
            vertex_src,
            fragment_src,
            const_bufs: Vec::new(),
            const_buf_sizes: Vec::new(),
            globals: Vec::new(),
            samplers: Vec::new(),
            sampler_modes: Vec::new(),
            textures: Vec::new(),
            attributes: Vec::new(),
            attribute_elements: Vec::new(),
            vertex_stride: 0,
            vertex_slot: 0,
            outputs: Vec::new(),
            output_depths: Vec::new(),
        };
        assert(names(Seq::<String>::empty()) =~= Seq::<Seq<char>>::empty());
        assert(r@ =~= (EffectDecl {
            vertex_src: vertex_src@,
            fragment_src: fragment_src@,
            const_bufs: seq![],
            const_buf_sizes: seq![],
            globals: seq![],
            samplers: seq![],
            sampler_modes: seq![],
            textures: seq![],
            attributes: seq![],
            attribute_elements: seq![],
            vertex_stride: 0,
            vertex_slot: 0,
            outputs: seq![],
            output_depths: seq![],
        }));
        r
    }

    /// Declares a constant buffer of `count` elements of `size` bytes each.
    pub fn with_raw_constant_buffer(self, name: &str, size: usize, count: usize) -> (r:
        EffectBuilder)
        ensures
            r@ == (EffectDecl {
                const_bufs: self@.const_bufs.push(name@),
                const_buf_sizes: self@.const_buf_sizes.push((size, count)),
                ..self@
            }),
    {
        let mut r = self;
        r.const_bufs.push(String::from_str(name));
        r.const_buf_sizes.push((size, count));
        proof {
            lemma_names_push(self.const_bufs@, r.const_bufs@.last());
        }
        r
    }

    /// Declares a global uniform.
    pub fn with_raw_global(self, name: &str) -> (r: EffectBuilder)
        ensures
            r@ == (EffectDecl { globals: self@.globals.push(name@), ..self@ }),
    {
        let mut r = self;
        r.globals.push(String::from_str(name));
        proof {
            lemma_names_push(self.globals@, r.globals@.last());
        }
        r
    }

    /// Declares one sampler per name, all filtering and wrapping alike.
    pub fn with_sampler(self, sampler_names: &[&str], filter: FilterMethod, wrap: WrapMode) -> (r:
        EffectBuilder)
        ensures
            r@ == (EffectDecl {
                samplers: self@.samplers + sampler_names@.map_values(|n: &str| n@),
                sampler_modes: self@.sampler_modes + Seq::new(
                    sampler_names@.len(),
                    |i: int| (filter, wrap),
                ),
                ..self@
            }),
    {
        let mut r = self;
        let mut i: usize = 0;
        while i < sampler_names.len()
            invariant
                i <= sampler_names@.len(),
                r@ == (EffectDecl {
                    samplers: self@.samplers + sampler_names@.subrange(0, i as int).map_values(
                        |n: &str| n@,
                    ),
                    sampler_modes: self@.sampler_modes + Seq::new(i as nat, |j: int| (filter, wrap)),
                    ..self@
                }),
            decreases sampler_names@.len() - i,
        {
            let ghost before = r.samplers@;
            r.samplers.push(String::from_str(sampler_names[i]));
            r.sampler_modes.push((filter, wrap));
            proof {
                lemma_names_push(before, r.samplers@.last());
                assert(sampler_names@.subrange(0, i + 1).map_values(|n: &str| n@) =~= sampler_names@.subrange(
                    0,
                    i as int,
                ).map_values(|n: &str| n@).push(sampler_names@[i as int]@));
                assert(self@.sampler_modes + Seq::new((i + 1) as nat, |j: int| (filter, wrap))
                    =~= (self@.sampler_modes + Seq::new(i as nat, |j: int| (filter, wrap))).push(
                    (filter, wrap),
                ));
                assert(r@ =~= (EffectDecl {
                    samplers: self@.samplers + sampler_names@.subrange(0, i + 1).map_values(
                        |n: &str| n@,
                    ),
                    sampler_modes: self@.sampler_modes + Seq::new(
                        (i + 1) as nat,
                        |j: int| (filter, wrap),
                    ),
                    ..self@
                }));
            }
            i = i + 1;
        }
        assert(sampler_names@.subrange(0, i as int) =~= sampler_names@);
        r
    }

    /// Declares a texture binding.
    pub fn with_texture(self, name: &str) -> (r: EffectBuilder)
        ensures
            r@ == (EffectDecl { textures: self@.textures.push(name@), ..self@ }),
    {
        let mut r = self;
        r.textures.push(String::from_str(name));
        proof {
            lemma_names_push(self.textures@, r.textures@.last());
        }
        r
    }

    /// Declares the vertex buffer: its attributes by name, its stride in
    /// bytes and the slot it is bound at.
    pub fn with_raw_vertex_buffer(self, attrs: &Vec<NamedAttribute>, stride: u32, slot: u8) -> (r:
        EffectBuilder)
        ensures
            r@ == (EffectDecl {
                attributes: self@.attributes + attrs@.map_values(|a: NamedAttribute| a.name@),
                attribute_elements: self@.attribute_elements + attrs@.map_values(
                    |a: NamedAttribute| a.element,
                ),
                vertex_stride: stride,
                vertex_slot: slot,
                ..self@
            }),
    {
        let mut r = self;
        r.vertex_stride = stride;
        r.vertex_slot = slot;
        let ghost start = r@;
        let mut i: usize = 0;
        while i < attrs.len()
            invariant
                i <= attrs@.len(),
                start == (EffectDecl { vertex_stride: stride, vertex_slot: slot, ..self@ }),
                r@ == (EffectDecl {
                    attributes: self@.attributes + attrs@.subrange(0, i as int).map_values(
                        |a: NamedAttribute| a.name@,
                    ),
                    attribute_elements: self@.attribute_elements + attrs@.subrange(
                        0,
                        i as int,
                    ).map_values(|a: NamedAttribute| a.element),
                    ..start
                }),
            decreases attrs@.len() - i,
        {
            let ghost before = r.attributes@;
            r.attributes.push(attrs[i].name.clone());
            r.attribute_elements.push(attrs[i].element);
            proof {
                lemma_names_push(before, r.attributes@.last());
                let s1 = attrs@.subrange(0, i + 1);
                let s0 = attrs@.subrange(0, i as int);
                assert(s1 =~= s0.push(attrs@[i as int]));
                assert(s1.map_values(|a: NamedAttribute| a.name@) =~= s0.map_values(
                    |a: NamedAttribute| a.name@,
                ).push(attrs@[i as int].name@));
                assert(s1.map_values(|a: NamedAttribute| a.element) =~= s0.map_values(
                    |a: NamedAttribute| a.element,
                ).push(attrs@[i as int].element));
                assert(r@ =~= (EffectDecl {
                    attributes: self@.attributes + s1.map_values(|a: NamedAttribute| a.name@),
                    attribute_elements: self@.attribute_elements + s1.map_values(
                        |a: NamedAttribute| a.element,
                    ),
                    ..start
                }));
            }
            i = i + 1;
        }
        assert(attrs@.subrange(0, i as int) =~= attrs@);
        r
    }

    /// Declares an output, with the depth test it is drawn under, if any.
    pub fn with_output(self, name: &str, depth: Option<DepthMode>) -> (r: EffectBuilder)
        ensures
            r@ == (EffectDecl {
                outputs: self@.outputs.push(name@),
                output_depths: self@.output_depths.push(depth),
                ..self@
            }),
    {
        let mut r = self;
        r.outputs.push(String::from_str(name));
        r.output_depths.push(depth);
        proof {
            lemma_names_push(self.outputs@, r.outputs@.last());
        }
        r
    }
}

impl EffectBuilder {
    /// Binds the declarations to the compiled program `program`, checking
    /// every declared name against the names the program uses and back.
    pub fn finish(self, program: &Program) -> (r: Result<Effect, Error>)
        ensures
            match self.binding_error(*program) {
                Some(e) => r matches Err(err) && err@ == e,
                None => r matches Ok(effect) && effect.program() == program.handle
                    && effect.layout() == self@,
            },
    {
        proof {
            reveal_with_fuel(first_missing_of, 7);
        }
        if let Some(n) = missing_name(&self.const_bufs, &program.constant_buffers) {
            return Err(Error::UnresolvedName(n));
        }
        if let Some(n) = missing_name(&self.globals, &program.globals) {
            return Err(Error::UnresolvedName(n));
        }
        if let Some(n) = missing_name(&self.samplers, &program.samplers) {
            return Err(Error::UnresolvedName(n));
        }
        if let Some(n) = missing_name(&self.textures, &program.textures) {
            return Err(Error::UnresolvedName(n));
        }
        if let Some(n) = missing_name(&self.attributes, &program.attributes) {
            return Err(Error::UnresolvedName(n));
        }
        if let Some(n) = missing_name(&self.outputs, &program.outputs) {
            return Err(Error::UnresolvedName(n));
        }
        if let Some(n) = missing_name(&program.constant_buffers, &self.const_bufs) {
            return Err(Error::UnboundName(n));
        }
        if let Some(n) = missing_name(&program.globals, &self.globals) {
            return Err(Error::UnboundName(n));
        }
        if let Some(n) = missing_name(&program.samplers, &self.samplers) {
            return Err(Error::UnboundName(n));
        }
        if let Some(n) = missing_name(&program.textures, &self.textures) {
            return Err(Error::UnboundName(n));
        }
        if let Some(n) = missing_name(&program.attributes, &self.attributes) {
            return Err(Error::UnboundName(n));
        }
        if let Some(n) = missing_name(&program.outputs, &self.outputs) {
            return Err(Error::UnboundName(n));
        }
        Ok(Effect { program: program.handle, layout: self })
    }
}

impl Effect {
    /// The device handle of the compiled program.
    pub closed spec fn program(&self) -> u64 {
        self.program
    }

    /// The declarations the effect was built with.
    pub closed spec fn layout(&self) -> EffectDecl {
        self.layout@
    }

    pub fn program_handle(&self) -> (r: u64)
        ensures
            r == self.program(),
    {
        self.program
    }
}

} // verus!
