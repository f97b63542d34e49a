use vstd::prelude::*;

use crate::ast::Declaration;
use crate::ast::SpecDeclaration;

verus! {

/// A scope chain: an ordered stack of frames, each mapping names to
/// declarations. Lookup walks from the newest frame to the oldest; insertion
/// always targets the newest frame, so inner bindings shadow outer ones
/// without touching them.
pub struct ScopedSymbols {
    frames: Vec<Vec<(String, Declaration)>>,
}

/// Mathematical model of a scope chain: the frames' maps, oldest first.
pub type SpecEnv = Seq<Map<Seq<char>, SpecDeclaration>>;

/// The map held by one frame. Later entries win, as the newest binding of a
/// name does.
pub open spec fn frame_view(s: Seq<(String, Declaration)>) -> Map<Seq<char>, SpecDeclaration>
    decreases s,
{
    if s.len() == 0 {
        Map::empty()
    } else {
        frame_view(s.drop_last()).insert(s.last().0@, s.last().1@)
    }
}

/// Looks a name up in a chain of frames, newest frame first.
pub open spec fn spec_lookup(env: SpecEnv, name: Seq<char>) -> Option<SpecDeclaration>
    decreases env,
{
    if env.len() == 0 {
        None
    } else if env.last().contains_key(name) {
        Some(env.last()[name])
    } else {
        spec_lookup(env.drop_last(), name)
    }
}

/// No two entries of a frame bind the same name.
pub open spec fn frame_wf(s: Seq<(String, Declaration)>) -> bool {
    forall|i: int, j: int| 0 <= i < j < s.len() ==> s[i].0@ != s[j].0@
}

impl View for ScopedSymbols {
    type V = SpecEnv;

    closed spec fn view(&self) -> SpecEnv {
        Seq::new(self.frames@.len(), |i: int| frame_view(self.frames@[i]@))
    }
}

impl ScopedSymbols {
    /// There is at least one frame, and no frame binds a name twice.
    pub closed spec fn wf(&self) -> bool {
        self.frames@.len() > 0 && forall|i: int|
            0 <= i < self.frames@.len() ==> frame_wf(#[trigger] self.frames@[i]@)
    }

    /// A well-formed chain holds at least one frame.
    pub proof fn lemma_wf_nonempty(&self)
        requires
            self.wf(),
        ensures
            self@.len() > 0,
    {
    }

    /// An empty scope chain of a single frame, with nothing above it.
    pub fn new() -> (r: ScopedSymbols)
        ensures
            r.wf(),
            r@ =~= seq![Map::<Seq<char>, SpecDeclaration>::empty()],
    {
        let mut frames: Vec<Vec<(String, Declaration)>> = Vec::new();
        frames.push(Vec::new());
        ScopedSymbols { frames }
    }

    /// A fresh scope layered over `parent`: the parent's frames, unchanged,
    /// under one new empty frame.
    pub fn with_parent(parent: &ScopedSymbols) -> (r: ScopedSymbols)
        requires
            parent.wf(),
        ensures
            r.wf(),
            r@ =~= parent@.push(Map::<Seq<char>, SpecDeclaration>::empty()),
    {
        let mut r = parent.clone_frames();
        r.push_frame();
        r
    }

    /// An owned copy of this scope chain.
    fn clone_frames(&self) -> (r: ScopedSymbols)
        requires
            self.wf(),
        ensures
            r.wf(),
            r@ =~= self@,
    {
        let mut frames: Vec<Vec<(String, Declaration)>> = Vec::new();
        let mut f: usize = 0;
        #[verifier::loop_isolation(false)]
        while f < self.frames.len()
            invariant
                f <= self.frames@.len(),
                frames@.len() == f as int,
                forall|i: int|
                    0 <= i < f ==> frame_view(#[trigger] frames@[i]@) == frame_view(
                        self.frames@[i]@,
                    ) && frame_wf(frames@[i]@),
            decreases self.frames@.len() - f,
        {
            let mut entries: Vec<(String, Declaration)> = Vec::new();
            let mut e: usize = 0;
            #[verifier::loop_isolation(false)]
            while e < self.frames[f].len()
                invariant
                    f < self.frames@.len(),
                    e <= self.frames@[f as int]@.len(),
                    entries@.len() == e as int,
                    forall|i: int|
                        0 <= i < e ==> (#[trigger] entries@[i]).0@
                            == self.frames@[f as int]@[i].0@ && entries@[i].1@
                            == self.frames@[f as int]@[i].1@,
                decreases self.frames@[f as int]@.len() - e,
            {
                let name = self.frames[f][e].0.clone();
                let decl = self.frames[f][e].1.clone();
                entries.push((name, decl));
                e = e + 1;
            }
            proof {
                lemma_frame_view_congruence(entries@, self.frames@[f as int]@);
            }
            frames.push(entries);
            f = f + 1;
        }
        let r = ScopedSymbols { frames };
        proof {
            assert(r@ =~= self@);
        }
        r
    }

    /// Opens a new empty frame at the top of the chain.
    pub fn push_frame(&mut self)
        requires
            old(self).wf(),
        ensures
            final(self).wf(),
            final(self)@ =~= old(self)@.push(Map::<Seq<char>, SpecDeclaration>::empty()),
    {
        self.frames.push(Vec::new());
    }

    /// Discards the newest frame, baring the chain it was layered over.
    pub fn pop_frame(&mut self)
        requires
            old(self).wf(),
            old(self)@.len() > 1,
        ensures
            final(self).wf(),
            final(self)@ =~= old(self)@.drop_last(),
    {
        let _ = self.frames.pop();
    }

    /// Binds `key` in the newest frame, replacing a binding of the same name
    /// there; bindings of outer frames are never touched.
    pub fn insert(&mut self, key: String, declaration: Declaration)
        requires
            old(self).wf(),
        ensures
            final(self).wf(),
            final(self)@ =~= old(self)@.update(
                old(self)@.len() - 1,
                old(self)@.last().insert(key@, declaration@),
            ),
    {
        let f = self.frames.len() - 1;
        let ghost old_frame = self.frames@[f as int]@;
        let mut e: usize = 0;
        let n = self.frames[f].len();
        #[verifier::loop_isolation(false)]
        while e < n
            invariant
                n == old_frame.len(),
                e <= old_frame.len(),
                self == old(self),
                forall|i: int| 0 <= i < e ==> old_frame[i].0@ != key@,
            decreases n - e,
        {
            if self.frames[f][e].0 == key {
                let mut frame = self.frames.remove(f);
                frame.set(e, (key, declaration));
                self.frames.insert(f, frame);
                proof {
                    lemma_frame_view_replace(old_frame, e as int, (key, declaration));
                    assert(self@ =~= old(self)@.update(
                        old(self)@.len() - 1,
                        old(self)@.last().insert(key@, declaration@),
                    ));
                }
                return ;
            }
            e = e + 1;
        }
        let mut frame = self.frames.remove(f);
        frame.push((key, declaration));
        self.frames.insert(f, frame);
        proof {
            assert(old_frame.push((key, declaration)).drop_last() =~= old_frame);
            assert(self@ =~= old(self)@.update(
                old(self)@.len() - 1,
                old(self)@.last().insert(key@, declaration@),
            ));
        }
    }

    /// Looks `key` up along the chain, newest frame first: the newest binding
    /// wins, and `None` comes back only if no frame binds the name.
    pub fn get(&self, key: &str) -> (r: Option<Declaration>)
        requires
            self.wf(),
        ensures
            match r {
                Some(d) => spec_lookup(self@, key@) == Some(d@),
                None => spec_lookup(self@, key@) is None,
            },
    {
        let k = key.to_owned();
        let mut f = self.frames.len();
        proof {
            assert(self@.take(f as int) =~= self@);
        }
        #[verifier::loop_isolation(false)]
        while f > 0
            invariant
                f <= self.frames@.len(),
                spec_lookup(self@, key@) == spec_lookup(self@.take(f as int), key@),
            decreases f,
        {
            f = f - 1;
            let n = self.frames[f].len();
            let mut e = n;
            #[verifier::loop_isolation(false)]
            while e > 0
                invariant
                    f < self.frames@.len(),
                    n == self.frames@[f as int]@.len(),
                    e <= n,
                    forall|i: int|
                        e <= i < n ==> (#[trigger] self.frames@[f as int]@[i]).0@ != key@,
                decreases e,
            {
                e = e - 1;
                if self.frames[f][e].0 == k {
                    let d = self.frames[f][e].1.clone();
                    proof {
                        lemma_frame_view_found(self.frames@[f as int]@, e as int, key@);
                        lemma_spec_lookup_take_hit(self@, f as int, key@);
                    }
                    return Some(d);
                }
            }
            proof {
                lemma_frame_view_missing(self.frames@[f as int]@, key@);
                assert(self@.take(f + 1).drop_last() =~= self@.take(f as int));
                assert(spec_lookup(self@, key@) == spec_lookup(self@.take(f as int), key@));
            }
        }
        proof {
            assert(self@.take(0) =~= Seq::<Map<Seq<char>, SpecDeclaration>>::empty());
        }
        None
    }
}

/// Two frames with pairwise view-equal entries have the same map.
proof fn lemma_frame_view_congruence(a: Seq<(String, Declaration)>, b: Seq<(String, Declaration)>)
    requires
        a.len() == b.len(),
        forall|i: int| 0 <= i < a.len() ==> (#[trigger] a[i]).0@ == b[i].0@ && a[i].1@ == b[i].1@,
        frame_wf(b),
    ensures
        frame_view(a) == frame_view(b),
        frame_wf(a),
    decreases a,
{
    if a.len() > 0 {
        lemma_frame_view_congruence(a.drop_last(), b.drop_last());
    }
}

/// An entry of a well-formed frame is what the frame's map holds for its name.
proof fn lemma_frame_view_found(s: Seq<(String, Declaration)>, i: int, name: Seq<char>)
    requires
        frame_wf(s),
        0 <= i < s.len(),
        s[i].0@ == name,
    ensures
        frame_view(s).contains_key(name),
        frame_view(s)[name] == s[i].1@,
    decreases s,
{
    if i < s.len() - 1 {
        lemma_frame_view_found(s.drop_last(), i, name);
    }
}

/// A name bound by no entry of a frame is absent from the frame's map.
proof fn lemma_frame_view_missing(s: Seq<(String, Declaration)>, name: Seq<char>)
    requires
        forall|i: int| 0 <= i < s.len() ==> (#[trigger] s[i]).0@ != name,
    ensures
        !frame_view(s).contains_key(name),
    decreases s,
{
    if s.len() > 0 {
        lemma_frame_view_missing(s.drop_last(), name);
    }
}

/// Replacing the entry that binds a name leaves the map as an insert would.
proof fn lemma_frame_view_replace(s: Seq<(String, Declaration)>, i: int, p: (String, Declaration))
    requires
        frame_wf(s),
        0 <= i < s.len(),
        s[i].0@ == p.0@,
    ensures
        frame_view(s.update(i, p)) =~= frame_view(s).insert(p.0@, p.1@),
        frame_wf(s.update(i, p)),
    decreases s,
{
    if i < s.len() - 1 {
        lemma_frame_view_replace(s.drop_last(), i, p);
        assert(s.update(i, p).drop_last() =~= s.drop_last().update(i, p));
        assert(s.update(i, p).last() == s.last());
    } else {
        assert(s.update(i, p).drop_last() =~= s.drop_last());
    }
}

/// A hit in frame `f` settles the lookup over the whole chain above it.
proof fn lemma_spec_lookup_take_hit(env: SpecEnv, f: int, name: Seq<char>)
    requires
        0 <= f < env.len(),
        env[f].contains_key(name),
    ensures
        spec_lookup(env.take(f + 1), name) == Some(env[f][name]),
{
    assert(env.take(f + 1).last() == env[f]);
}

} // verus!
