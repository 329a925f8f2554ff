//! Named output surfaces and the registry that holds them.
use vstd::prelude::*;
use std::sync::Arc;

verus! {

/// A destination surface: color buffers and an optional depth buffer, named by
/// device handle.
#[derive(Debug)]
pub struct Target {
    name: String,
    color_bufs: Vec<u64>,
    depth_buf: Option<u64>,
}

impl Target {
    pub fn new(name: String, color_bufs: Vec<u64>, depth_buf: Option<u64>) -> (t: Target)
        ensures
            t.name() == name@,
            t.color_bufs() == color_bufs@,
            t.depth() == depth_buf,
    {
        Target { name, color_bufs, depth_buf }
    }

    pub closed spec fn name(&self) -> Seq<char> {
        self.name@
    }

    pub closed spec fn color_bufs(&self) -> Seq<u64> {
        self.color_bufs@
    }

    pub closed spec fn depth(&self) -> Option<u64> {
        self.depth_buf
    }

    pub fn name_str(&self) -> (r: &String)
        ensures
            r@ == self.name(),
    {
        &self.name
    }

    /// The color buffers, in order.
    pub fn color_buf_handles(&self) -> (r: &Vec<u64>)
        ensures
            r@ == self.color_bufs(),
    {
        &self.color_bufs
    }

    /// The color buffer at index `i`, if there is one.
    pub fn color_buf(&self, i: usize) -> (r: Option<u64>)
        ensures
            r == (if i < self.color_bufs().len() {
                Some(self.color_bufs()[i as int])
            } else {
                None
            }),
    {
        if i < self.color_bufs.len() {
            Some(self.color_bufs[i])
        } else {
            None
        }
    }

    pub fn depth_buf(&self) -> (r: Option<u64>)
        ensures
            r == self.depth(),
    {
        self.depth_buf
    }
}

/// The first position in `s` of a target named `name`.
pub open spec fn find_target(s: Seq<Arc<Target>>, name: Seq<char>) -> Option<int>
    decreases s.len(),
{
    if s.len() == 0 {
        None
    } else if s.last().name() == name {
        match find_target(s.drop_last(), name) {
            Some(i) => Some(i),
            None => Some(s.len() - 1),
        }
    } else {
        find_target(s.drop_last(), name)
    }
}

/// The registry of targets, by name. No two targets share a name.
#[derive(Debug)]
pub struct Targets {
    targets: Vec<Arc<Target>>,
}

impl Targets {
    pub closed spec fn entries(&self) -> Seq<Arc<Target>> {
        self.targets@
    }

    /// The target registered under `name`.
    pub open spec fn lookup(&self, name: Seq<char>) -> Option<Arc<Target>> {
        match find_target(self.entries(), name) {
            Some(i) => Some(self.entries()[i]),
            None => None,
        }
    }

    pub fn new() -> (r: Targets)
        ensures
            forall|name: Seq<char>| r.lookup(name) is None,
    {
        let r = Targets { targets: Vec::new() };
        assert forall|name: Seq<char>| r.lookup(name) is None by {
            reveal_with_fuel(find_target, 1);
        }
        r
    }

    /// Registers `target` under its name. A name that is taken already is
    /// left to the target that holds it, and `false` is returned.
    pub fn add(&mut self, target: Target) -> (added: bool)
        ensures
            added == (old(self).lookup(target.name()) is None),
            added ==> (final(self).lookup(target.name()) matches Some(t) && *t == target),
            forall|name: Seq<char>|
                #![trigger final(self).lookup(name)]
                !(added && name == target.name()) ==> final(self).lookup(name) == old(
                    self,
                ).lookup(name),
    {
        if self.get(&target.name).is_some() {
            return false;
        }
        let ghost before = self.targets@;
        let ghost t = target;
        self.targets.push(Arc::new(target));
        assert(self.targets@.drop_last() =~= before);
        assert forall|name: Seq<char>|
            !(name == t.name()) implies #[trigger] self.lookup(name) == old(self).lookup(name) by {
            lemma_find_target_bounds(before, name);
            if find_target(before, name) is Some {
                assert(find_target(self.targets@, name) == find_target(before, name));
            }
        }
        true
    }

    /// Finds the target named `name`.
    pub fn get(&self, name: &String) -> (r: Option<Arc<Target>>)
        ensures
            r == self.lookup(name@),
    {
        let mut i: usize = 0;
        while i < self.targets.len()
            invariant
                i <= self.targets@.len(),
                find_target(self.targets@.subrange(0, i as int), name@) is None,
            decreases self.targets@.len() - i,
        {
            if self.targets[i].name == *name {
                proof {
                    lemma_find_target_first(self.targets@, i as int, name@);
                }
                return Some(self.targets[i].clone());
            }
            proof {
                let s = self.targets@.subrange(0, i + 1);
                assert(s.drop_last() =~= self.targets@.subrange(0, i as int));
            }
            i = i + 1;
        }
        assert(self.targets@.subrange(0, i as int) =~= self.targets@);
        None
    }
}

proof fn lemma_find_target_bounds(s: Seq<Arc<Target>>, name: Seq<char>)
    ensures
        find_target(s, name) matches Some(i) ==> 0 <= i < s.len() && s[i].name() == name,
    decreases s.len(),
{
    if s.len() > 0 {
        lemma_find_target_bounds(s.drop_last(), name);
    }
}

proof fn lemma_find_target_first(s: Seq<Arc<Target>>, i: int, name: Seq<char>)
    requires
        0 <= i < s.len(),
        s[i].name() == name,
        find_target(s.subrange(0, i), name) is None,
    ensures
        find_target(s, name) == Some(i),
    decreases s.len(),
{
    if i == s.len() - 1 {
        assert(s.drop_last() =~= s.subrange(0, i));
    } else {
        assert(s.drop_last().subrange(0, i) =~= s.subrange(0, i));
        lemma_find_target_first(s.drop_last(), i, name);
    }
}

} // verus!
