//! The chunks the world asks to have built: blocks to generate, light to
//! compute (on its own or with its neighbours), meshes and fluids to
//! update. Each request is a set of chunk positions.
use vstd::prelude::*;
use crate::pos::IVec3;

verus! {

/// A set of chunk positions, in the order they were first asked for.
pub struct PosSet {
    positions: Vec<IVec3>,
}

impl PosSet {
    #[verifier::type_invariant]
    spec fn distinct(self) -> bool {
        forall|i: int, j: int| 0 <= i < j < self.positions@.len() ==> self.positions@[i] != self.positions@[j]
    }

    /// The positions, in the order they were first asked for.
    pub closed spec fn view_seq(&self) -> Seq<IVec3> {
        self.positions@
    }

    /// The positions as a set.
    pub open spec fn members(&self) -> Set<IVec3> {
        self.view_seq().to_set()
    }

    /// No position.
    pub fn new() -> (r: Self)
        ensures
            r.view_seq().len() == 0,
    {
        Self { positions: Vec::new() }
    }

    /// Whether `pos` is in the set.
    pub fn contains(&self, pos: IVec3) -> (r: bool)
        ensures
            r == self.view_seq().contains(pos),
    {
        let mut i: usize = 0;
        while i < self.positions.len()
            invariant
                i <= self.positions@.len(),
                forall|k: int| 0 <= k < i ==> self.positions@[k] != pos,
            decreases self.positions@.len() - i,
        {
            if self.positions[i] == pos {
                return true;
            }
            i = i + 1;
        }
        false
    }

    /// Adds `pos`; a position already in the set stays where it was.
    pub fn insert(&mut self, pos: IVec3)
        ensures
            final(self).view_seq() == if old(self).view_seq().contains(pos) {
                old(self).view_seq()
            } else {
                old(self).view_seq().push(pos)
            },
    {
        if !self.contains(pos) {
            proof {
                use_type_invariant(&*self);
            }
            let mut v = Vec::new();
            std::mem::swap(&mut v, &mut self.positions);
            v.push(pos);
            self.positions = v;
        }
    }

    /// How many positions the set holds.
    pub fn len(&self) -> (r: usize)
        ensures
            r == self.view_seq().len(),
    {
        self.positions.len()
    }

    /// The positions, in the order they were first asked for.
    pub fn positions(&self) -> (r: &Vec<IVec3>)
        ensures
            r@ == self.view_seq(),
    {
        &self.positions
    }

    /// Hands out every position and leaves the set empty.
    pub fn take(&mut self) -> (r: Vec<IVec3>)
        ensures
            r@ == old(self).view_seq(),
            final(self).view_seq().len() == 0,
    {
        let mut v = Vec::new();
        std::mem::swap(&mut v, &mut self.positions);
        v
    }
}

/// Asking twice for a position is asking once, and the set holds exactly
/// the positions asked for.
pub proof fn lemma_insert_set(s: Seq<IVec3>, pos: IVec3)
    ensures
        (if s.contains(pos) { s } else { s.push(pos) }).to_set() == s.to_set().insert(pos),
{
    if s.contains(pos) {
        assert(s.to_set() =~= s.to_set().insert(pos));
    } else {
        assert(s.push(pos).to_set() =~= s.to_set().insert(pos)) by {
            assert forall|p: IVec3| #[trigger] s.push(pos).contains(p) <==> s.contains(p) || p == pos by {
                if s.push(pos).contains(p) {
                    let k = choose|k: int| 0 <= k < s.push(pos).len() && s.push(pos)[k] == p;
                    if k < s.len() {
                        assert(s[k] == p);
                    }
                }
                if s.contains(p) {
                    let k = choose|k: int| 0 <= k < s.len() && s[k] == p;
                    assert(s.push(pos)[k] == p);
                }
                if p == pos {
                    assert(s.push(pos)[s.len() as int] == p);
                }
            }
        }
    }
}

impl Default for PosSet {
    fn default() -> (r: Self)
        ensures
            r.view_seq().len() == 0,
    {
        Self::new()
    }
}

/// The chunks asked for, by kind of work.
pub struct ChunkRequestQueue {
    mesh: PosSet,
    block: PosSet,
    simple_light: PosSet,
    complex_light: PosSet,
    fluid: PosSet,
}

impl Default for ChunkRequestQueue {
    fn default() -> (r: Self)
        ensures
            r.get_block_spec().view_seq().len() == 0,
            r.get_mesh_spec().view_seq().len() == 0,
            r.get_simple_light_spec().view_seq().len() == 0,
            r.get_complex_light_spec().view_seq().len() == 0,
            r.get_fluid_spec().view_seq().len() == 0,
    {
        Self::new()
    }
}

impl ChunkRequestQueue {
    /// Nothing asked for.
    pub fn new() -> (r: Self)
        ensures
            r.get_block_spec().view_seq().len() == 0,
            r.get_mesh_spec().view_seq().len() == 0,
            r.get_simple_light_spec().view_seq().len() == 0,
            r.get_complex_light_spec().view_seq().len() == 0,
            r.get_fluid_spec().view_seq().len() == 0,
    {
        Self {
            mesh: PosSet::new(),
            block: PosSet::new(),
            simple_light: PosSet::new(),
            complex_light: PosSet::new(),
            fluid: PosSet::new(),
        }
    }

    /// The chunks whose blocks are asked for.
    pub closed spec fn get_block_spec(&self) -> PosSet {
        self.block
    }

    /// The chunks whose meshes are asked for.
    pub closed spec fn get_mesh_spec(&self) -> PosSet {
        self.mesh
    }

    /// The chunks whose own light is asked for.
    pub closed spec fn get_simple_light_spec(&self) -> PosSet {
        self.simple_light
    }

    /// The chunks whose light with their neighbours is asked for.
    pub closed spec fn get_complex_light_spec(&self) -> PosSet {
        self.complex_light
    }

    /// The chunks whose fluids are asked for.
    pub closed spec fn get_fluid_spec(&self) -> PosSet {
        self.fluid
    }

    /// Asks for the blocks of the chunk at `pos` to be generated.
    pub fn block(&mut self, pos: IVec3)
        ensures
            final(self).get_block_spec().view_seq() == if old(self).get_block_spec().view_seq().contains(pos) {
                old(self).get_block_spec().view_seq()
            } else {
                old(self).get_block_spec().view_seq().push(pos)
            },
            final(self).get_mesh_spec() == old(self).get_mesh_spec(),
            final(self).get_simple_light_spec() == old(self).get_simple_light_spec(),
            final(self).get_complex_light_spec() == old(self).get_complex_light_spec(),
            final(self).get_fluid_spec() == old(self).get_fluid_spec(),
    {
        self.block.insert(pos);
    }

    /// The chunks asked for this way.
    pub fn get_block(&self) -> (r: &PosSet)
        ensures
            *r == self.get_block_spec(),
    {
        &self.block
    }

    /// The chunks asked for this way, to take requests from.
    pub fn get_block_mut(&mut self) -> (r: &mut PosSet)
        ensures
            *r == old(self).get_block_spec(),
            final(self).get_block_spec() == *final(r),
            final(self).get_mesh_spec() == old(self).get_mesh_spec(),
            final(self).get_simple_light_spec() == old(self).get_simple_light_spec(),
            final(self).get_complex_light_spec() == old(self).get_complex_light_spec(),
            final(self).get_fluid_spec() == old(self).get_fluid_spec(),
    {
        &mut self.block
    }

    /// How many chunks are asked for this way.
    pub fn block_len(&self) -> (r: usize)
        ensures
            r == self.get_block_spec().view_seq().len(),
    {
        self.block.len()
    }

    /// Asks for the mesh of the chunk at `pos` to be built.
    pub fn mesh(&mut self, pos: IVec3)
        ensures
            final(self).get_mesh_spec().view_seq() == if old(self).get_mesh_spec().view_seq().contains(pos) {
                old(self).get_mesh_spec().view_seq()
            } else {
                old(self).get_mesh_spec().view_seq().push(pos)
            },
            final(self).get_block_spec() == old(self).get_block_spec(),
            final(self).get_simple_light_spec() == old(self).get_simple_light_spec(),
            final(self).get_complex_light_spec() == old(self).get_complex_light_spec(),
            final(self).get_fluid_spec() == old(self).get_fluid_spec(),
    {
        self.mesh.insert(pos);
    }

    /// The chunks asked for this way.
    pub fn get_mesh(&self) -> (r: &PosSet)
        ensures
            *r == self.get_mesh_spec(),
    {
        &self.mesh
    }

    /// The chunks asked for this way, to take requests from.
    pub fn get_mesh_mut(&mut self) -> (r: &mut PosSet)
        ensures
            *r == old(self).get_mesh_spec(),
            final(self).get_mesh_spec() == *final(r),
            final(self).get_block_spec() == old(self).get_block_spec(),
            final(self).get_simple_light_spec() == old(self).get_simple_light_spec(),
            final(self).get_complex_light_spec() == old(self).get_complex_light_spec(),
            final(self).get_fluid_spec() == old(self).get_fluid_spec(),
    {
        &mut self.mesh
    }

    /// How many chunks are asked for this way.
    pub fn mesh_len(&self) -> (r: usize)
        ensures
            r == self.get_mesh_spec().view_seq().len(),
    {
        self.mesh.len()
    }

    /// Asks for the light of the chunk at `pos` to be computed on its own.
    pub fn simple_light(&mut self, pos: IVec3)
        ensures
            final(self).get_simple_light_spec().view_seq() == if old(self).get_simple_light_spec().view_seq().contains(pos) {
                old(self).get_simple_light_spec().view_seq()
            } else {
                old(self).get_simple_light_spec().view_seq().push(pos)
            },
            final(self).get_block_spec() == old(self).get_block_spec(),
            final(self).get_mesh_spec() == old(self).get_mesh_spec(),
            final(self).get_complex_light_spec() == old(self).get_complex_light_spec(),
            final(self).get_fluid_spec() == old(self).get_fluid_spec(),
    {
        self.simple_light.insert(pos);
    }

    /// The chunks asked for this way.
    pub fn get_simple_light(&self) -> (r: &PosSet)
        ensures
            *r == self.get_simple_light_spec(),
    {
        &self.simple_light
    }

    /// The chunks asked for this way, to take requests from.
    pub fn get_simple_light_mut(&mut self) -> (r: &mut PosSet)
        ensures
            *r == old(self).get_simple_light_spec(),
            final(self).get_simple_light_spec() == *final(r),
            final(self).get_block_spec() == old(self).get_block_spec(),
            final(self).get_mesh_spec() == old(self).get_mesh_spec(),
            final(self).get_complex_light_spec() == old(self).get_complex_light_spec(),
            final(self).get_fluid_spec() == old(self).get_fluid_spec(),
    {
        &mut self.simple_light
    }

    /// How many chunks are asked for this way.
    pub fn simple_light_len(&self) -> (r: usize)
        ensures
            r == self.get_simple_light_spec().view_seq().len(),
    {
        self.simple_light.len()
    }

    /// Asks for the light of the chunk at `pos` to be computed with its neighbours.
    pub fn complex_light(&mut self, pos: IVec3)
        ensures
            final(self).get_complex_light_spec().view_seq() == if old(self).get_complex_light_spec().view_seq().contains(pos) {
                old(self).get_complex_light_spec().view_seq()
            } else {
                old(self).get_complex_light_spec().view_seq().push(pos)
            },
            final(self).get_block_spec() == old(self).get_block_spec(),
            final(self).get_mesh_spec() == old(self).get_mesh_spec(),
            final(self).get_simple_light_spec() == old(self).get_simple_light_spec(),
            final(self).get_fluid_spec() == old(self).get_fluid_spec(),
    {
        self.complex_light.insert(pos);
    }

    /// The chunks asked for this way.
    pub fn get_complex_light(&self) -> (r: &PosSet)
        ensures
            *r == self.get_complex_light_spec(),
    {
        &self.complex_light
    }

    /// The chunks asked for this way, to take requests from.
    pub fn get_complex_light_mut(&mut self) -> (r: &mut PosSet)
        ensures
            *r == old(self).get_complex_light_spec(),
            final(self).get_complex_light_spec() == *final(r),
            final(self).get_block_spec() == old(self).get_block_spec(),
            final(self).get_mesh_spec() == old(self).get_mesh_spec(),
            final(self).get_simple_light_spec() == old(self).get_simple_light_spec(),
            final(self).get_fluid_spec() == old(self).get_fluid_spec(),
    {
        &mut self.complex_light
    }

    /// How many chunks are asked for this way.
    pub fn complex_light_len(&self) -> (r: usize)
        ensures
            r == self.get_complex_light_spec().view_seq().len(),
    {
        self.complex_light.len()
    }

    /// Asks for the fluids of the chunk at `pos` to be updated.
    pub fn fluid(&mut self, pos: IVec3)
        ensures
            final(self).get_fluid_spec().view_seq() == if old(self).get_fluid_spec().view_seq().contains(pos) {
                old(self).get_fluid_spec().view_seq()
            } else {
                old(self).get_fluid_spec().view_seq().push(pos)
            },
            final(self).get_block_spec() == old(self).get_block_spec(),
            final(self).get_mesh_spec() == old(self).get_mesh_spec(),
            final(self).get_simple_light_spec() == old(self).get_simple_light_spec(),
            final(self).get_complex_light_spec() == old(self).get_complex_light_spec(),
    {
        self.fluid.insert(pos);
    }

    /// The chunks asked for this way.
    pub fn get_fluid(&self) -> (r: &PosSet)
        ensures
            *r == self.get_fluid_spec(),
    {
        &self.fluid
    }

    /// The chunks asked for this way, to take requests from.
    pub fn get_fluid_mut(&mut self) -> (r: &mut PosSet)
        ensures
            *r == old(self).get_fluid_spec(),
            final(self).get_fluid_spec() == *final(r),
            final(self).get_block_spec() == old(self).get_block_spec(),
            final(self).get_mesh_spec() == old(self).get_mesh_spec(),
            final(self).get_simple_light_spec() == old(self).get_simple_light_spec(),
            final(self).get_complex_light_spec() == old(self).get_complex_light_spec(),
    {
        &mut self.fluid
    }

    /// How many chunks are asked for this way.
    pub fn fluid_len(&self) -> (r: usize)
        ensures
            r == self.get_fluid_spec().view_seq().len(),
    {
        self.fluid.len()
    }
}

} // verus!
