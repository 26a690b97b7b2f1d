//! Render-side data the simulation fills in: the animation repository that
//! maps names to frame sequences, and the depth buffer that orders draw
//! commands back-to-front by their depth key.

use vstd::prelude::*;

use crate::components::{AnimationId, Sprite};
use crate::math::Vec3;

verus! {

/// Named frame sequences. Identifier 0 is a reserved sentinel whose frame
/// list is empty; every pushed animation gets the next identifier.
pub struct AnimationRepository {
    pub animations: Vec<Vec<Sprite>>,
    pub lookup: Vec<(&'static str, AnimationId)>,
}

/// Repository invariant: the sentinel exists, every name maps to a real
/// (non-sentinel) animation, and every real animation holds at least one and
/// at most a bounded number of frames.
pub open spec fn repo_wf(r: AnimationRepository) -> bool {
    &&& 1 <= r.animations@.len()
    &&& forall|i: int|
        0 <= i < r.lookup@.len() ==> 1 <= (#[trigger] r.lookup@[i]).1.0
            < r.animations@.len()
    &&& forall|i: int|
        0 <= i < r.animations@.len() ==> (#[trigger] r.animations@[i])@.len() <= 0x1_0000
    &&& forall|i: int| 1 <= i < r.animations@.len() ==> (#[trigger] r.animations@[i])@.len() >= 1
}

/// Whether some lookup entry maps `name` to an animation.
pub open spec fn repo_has_name(r: AnimationRepository, name: Seq<char>) -> bool {
    exists|i: int| 0 <= i < r.lookup@.len() && (#[trigger] r.lookup@[i]).0@ == name
}

/// The identifier a name resolves to: that of the latest registration of
/// the name, or nothing when the name was never registered.
pub open spec fn lookup_name(entries: Seq<(&'static str, AnimationId)>, name: Seq<char>) -> Option<
    AnimationId,
>
    decreases entries.len(),
{
    if entries.len() == 0 {
        None
    } else if entries.last().0@ == name {
        Some(entries.last().1)
    } else {
        lookup_name(entries.drop_last(), name)
    }
}

/// A resolvable name resolves to something and the other way around.
pub proof fn lemma_lookup_name_has(entries: Seq<(&'static str, AnimationId)>, name: Seq<char>)
    ensures
        lookup_name(entries, name) is Some <==> exists|i: int|
            0 <= i < entries.len() && (#[trigger] entries[i]).0@ == name,
    decreases entries.len(),
{
    if entries.len() > 0 {
        lemma_lookup_name_has(entries.drop_last(), name);
        if entries.last().0@ == name {
            assert(entries[entries.len() - 1].0@ == name);
        } else {
            if lookup_name(entries.drop_last(), name) is Some {
                let i = choose|i: int|
                    0 <= i < entries.drop_last().len() && (#[trigger] entries.drop_last()[i]).0@
                        == name;
                assert(entries[i].0@ == name);
            }
            if exists|i: int| 0 <= i < entries.len() && (#[trigger] entries[i]).0@ == name {
                let i = choose|i: int|
                    0 <= i < entries.len() && (#[trigger] entries[i]).0@ == name;
                assert(entries.drop_last()[i] == entries[i]);
            }
        }
    }
}

/// Registering a name and resolving it at once yields the identifier of the
/// registration, whose frame list is exactly what was registered: the push /
/// get / get_frames round trip is lossless, and the latest push for a name
/// wins.
pub proof fn lemma_register_roundtrip(
    before: AnimationRepository,
    name: &'static str,
    frames: Vec<Sprite>,
    after: AnimationRepository,
)
    requires
        after.animations@ == before.animations@.push(frames),
        after.lookup@ == before.lookup@.push(
            (name, AnimationId(before.animations@.len() as usize)),
        ),
        before.animations@.len() <= usize::MAX,
    ensures
        lookup_name(after.lookup@, name@) == Some(
            AnimationId(before.animations@.len() as usize),
        ),
        after.animations@[before.animations@.len() as int]@ == frames@,
{
    assert(after.lookup@.last() == (name, AnimationId(before.animations@.len() as usize)));
}

impl AnimationRepository {
    /// An empty repository holding only the sentinel animation.
    pub fn new() -> (r: AnimationRepository)
        ensures
            repo_wf(r),
            r.animations@.len() == 1,
            r.animations@[0]@.len() == 0,
            r.lookup@.len() == 0,
    {
        let mut animations: Vec<Vec<Sprite>> = Vec::new();
        animations.push(Vec::new());
        AnimationRepository { animations, lookup: Vec::new() }
    }

    /// Registers a named animation and returns nothing; the name resolves to
    /// the identifier of the appended frame list.
    pub fn push(&mut self, name: &'static str, frames: Vec<Sprite>)
        requires
            repo_wf(*old(self)),
            1 <= frames@.len() <= 0x1_0000,
        ensures
            repo_wf(*final(self)),
            final(self).animations@ == old(self).animations@.push(frames),
            final(self).lookup@ == old(self).lookup@.push(
                (name, AnimationId(old(self).animations@.len() as usize)),
            ),
    {
        let id = AnimationId(self.animations.len());
        self.animations.push(frames);
        self.lookup.push((name, id));
    }

    /// The frame list of an animation identifier.
    pub fn get_frames(&self, anim_id: AnimationId) -> (frames: &Vec<Sprite>)
        requires
            repo_wf(*self),
            anim_id.0 < self.animations@.len(),
        ensures
            frames@ == self.animations@[anim_id.0 as int]@,
    {
        &self.animations[anim_id.0]
    }

    /// Resolves a name to its animation identifier: that of the latest
    /// registration of the name, if any.
    pub fn get(&self, name: &str) -> (r: Option<AnimationId>)
        requires
            repo_wf(*self),
        ensures
            r == lookup_name(self.lookup@, name@),
            r is Some <==> repo_has_name(*self, name@),
            r is Some ==> 1 <= r->Some_0.0 < self.animations@.len(),
    {
        proof {
            lemma_lookup_name_has(self.lookup@, name@);
            assert(self.lookup@.take(self.lookup@.len() as int) =~= self.lookup@);
        }
        let mut i: usize = self.lookup.len();
        while i > 0
            invariant
                repo_wf(*self),
                i <= self.lookup@.len(),
                lookup_name(self.lookup@, name@) == lookup_name(
                    self.lookup@.take(i as int),
                    name@,
                ),
            decreases i,
        {
            i = i - 1;
            let entry = &self.lookup[i];
            proof {
                assert(self.lookup@.take(i as int + 1).last() == self.lookup@[i as int]);
                assert(self.lookup@.take(i as int + 1).drop_last() =~= self.lookup@.take(i as int));
            }
            if entry.0.to_owned() == name.to_owned() {
                return Some(entry.1);
            }
        }
        None
    }
}

/// One sprite to draw: what, where, and its depth key `pos.z`.
#[derive(Clone, Copy, PartialEq, Eq, Structural, Debug)]
pub struct DrawCmd {
    pub sprite: Sprite,
    pub pos: Vec3,
    pub flip_horizontal: bool,
}

/// Draw commands ordered by ascending depth key.
pub open spec fn depth_sorted(s: Seq<DrawCmd>) -> bool {
    forall|i: int, j: int| 0 <= i < j < s.len() ==> (#[trigger] s[i]).pos.z <= (#[trigger] s[j]).pos.z
}

/// Collects draw commands and hands them back ordered by depth, lowest key
/// first, so later draws cover earlier ones.
pub struct DepthBuffer {
    pub buffer: Vec<DrawCmd>,
}

impl DepthBuffer {
    pub fn new() -> (d: DepthBuffer)
        ensures
            d.buffer@.len() == 0,
            depth_sorted(d.buffer@),
    {
        DepthBuffer { buffer: Vec::new() }
    }

    /// Files a draw command at its depth position.
    pub fn push(&mut self, cmd: DrawCmd)
        requires
            depth_sorted(old(self).buffer@),
        ensures
            depth_sorted(final(self).buffer@),
            final(self).buffer@.len() == old(self).buffer@.len() + 1,
            final(self).buffer@.to_multiset() == old(self).buffer@.to_multiset().insert(cmd),
            exists|k: int|
                0 <= k <= old(self).buffer@.len() && final(self).buffer@ == old(
                    self,
                ).buffer@.insert(k, cmd),
    {
        let mut i: usize = 0;
        while i < self.buffer.len() && self.buffer[i].pos.z <= cmd.pos.z
            invariant
                depth_sorted(self.buffer@),
                *self == *old(self),
                i <= self.buffer@.len(),
                forall|j: int| 0 <= j < i ==> (#[trigger] self.buffer@[j]).pos.z <= cmd.pos.z,
            decreases self.buffer@.len() - i,
        {
            i = i + 1;
        }
        self.buffer.insert(i, cmd);
        proof {
            let s = old(self).buffer@;
            let t = self.buffer@;
            let k = i as int;
            assert(t == s.insert(k, cmd));
            vstd::seq_lib::to_multiset_insert(s, k, cmd);
            assert forall|p: int, q: int| 0 <= p < q < t.len() implies (#[trigger] t[p]).pos.z <= (
            #[trigger] t[q]).pos.z by {
                if p < k && q < k {
                } else if p < k && q == k {
                } else if p < k && q > k {
                } else if p == k && q > k {
                } else {
                }
            }
        }
    }

    /// Empties the buffer, returning its commands in depth order.
    pub fn drain_sorted(&mut self) -> (r: Vec<DrawCmd>)
        requires
            depth_sorted(old(self).buffer@),
        ensures
            r@ == old(self).buffer@,
            depth_sorted(r@),
            final(self).buffer@.len() == 0,
    {
        let mut out: Vec<DrawCmd> = Vec::new();
        core::mem::swap(&mut out, &mut self.buffer);
        out
    }
}

} // verus!
