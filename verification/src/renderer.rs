//! The frame renderer's draw ordering.
//!
//! Each frame runs: clear, then for each scene object in order, for each of
//! its sub-meshes, bind the mesh buffers, activate the material, push the
//! uniforms, issue the indexed draw, and release the transient buffers —
//! never interleaving two objects' sequences — and finally present. The
//! plan below fixes that order; the rendering back-end walks it step by
//! step and performs each step against the GPU.

use vstd::prelude::*;

verus! {

/// GPU handles the renderer holds between steps.
#[derive(Clone, Copy, Debug, PartialEq, Eq, Structural)]
pub struct RatRenderer {
    pub vao: u32,
    pub vbo: u32,
    pub ebo: u32,
}

/// One step of a frame, naming the object and sub-mesh it concerns.
#[derive(Clone, Copy, Debug, PartialEq, Eq, Structural)]
pub enum RenderStep {
    /// Clear the framebuffer.
    Clear,
    /// Create and bind the vertex and index buffers of one sub-mesh.
    BindBuffers { object: usize, submesh: usize },
    /// Bind the object's texture, if it has one.
    ActivateMaterial { object: usize },
    /// Bind the object's program and push its uniforms.
    PushUniforms { object: usize },
    /// Issue the indexed draw call.
    DrawIndexed { object: usize, submesh: usize },
    /// Release the buffers created for this sub-mesh.
    ReleaseBuffers { object: usize, submesh: usize },
    /// Swap the frame onto the screen.
    Present,
}

/// The five steps that draw sub-mesh `j` of object `i`.
pub open spec fn submesh_steps(i: int, j: int) -> Seq<RenderStep> {
    seq![
        RenderStep::BindBuffers { object: i as usize, submesh: j as usize },
        RenderStep::ActivateMaterial { object: i as usize },
        RenderStep::PushUniforms { object: i as usize },
        RenderStep::DrawIndexed { object: i as usize, submesh: j as usize },
        RenderStep::ReleaseBuffers { object: i as usize, submesh: j as usize },
    ]
}

/// The steps that draw the first `m` sub-meshes of object `i`, in order.
pub open spec fn object_steps(i: int, m: int) -> Seq<RenderStep>
    decreases m,
{
    if m <= 0 {
        Seq::empty()
    } else {
        object_steps(i, m - 1) + submesh_steps(i, m - 1)
    }
}

/// The steps that draw all listed objects, one after the other.
pub open spec fn objects_steps(counts: Seq<usize>) -> Seq<RenderStep>
    decreases counts.len(),
{
    if counts.len() == 0 {
        Seq::empty()
    } else {
        objects_steps(counts.drop_last()) + object_steps(
            counts.len() - 1,
            counts.last() as int,
        )
    }
}

/// A whole frame: clear, every object's sub-meshes in order, present.
pub open spec fn frame_plan_spec(counts: Seq<usize>) -> Seq<RenderStep> {
    seq![RenderStep::Clear] + objects_steps(counts) + seq![RenderStep::Present]
}

impl RatRenderer {
    /// A renderer holding no GPU buffers yet.
    pub fn new() -> (r: RatRenderer)
        ensures
            r == (RatRenderer { vao: 0u32, vbo: 0u32, ebo: 0u32 }),
    {
        RatRenderer { vao: 0, vbo: 0, ebo: 0 }
    }

    /// The plan of one frame over objects with the given sub-mesh counts:
    /// exactly `frame_plan_spec`. Buffers bound for a sub-mesh are released
    /// by its own fifth step, before any later sub-mesh or object is
    /// touched, so per-frame buffers can never leak past the frame.
    #[verifier::loop_isolation(false)]
    pub fn frame_plan(counts: &Vec<usize>) -> (r: Vec<RenderStep>)
        ensures
            r@ == frame_plan_spec(counts@),
    {
        let mut r: Vec<RenderStep> = Vec::new();
        r.push(RenderStep::Clear);
        let n: usize = counts.len();
        proof {
            assert(objects_steps(counts@.subrange(0, 0)) =~= Seq::<RenderStep>::empty());
            assert(r@ =~= seq![RenderStep::Clear] + objects_steps(counts@.subrange(0, 0)));
        }
        let mut i: usize = 0;
        while i < n
            invariant
                0 <= i <= n,
                r@ == seq![RenderStep::Clear] + objects_steps(counts@.subrange(0, i as int)),
            decreases n - i,
        {
            let m: usize = counts[i];
            proof {
                assert(object_steps(i as int, 0) =~= Seq::<RenderStep>::empty());
            }
            let mut j: usize = 0;
            while j < m
                invariant
                    0 <= j <= m,
                    m == counts@[i as int],
                    0 <= i < n,
                    r@ == seq![RenderStep::Clear] + objects_steps(counts@.subrange(0, i as int))
                        + object_steps(i as int, j as int),
                decreases m - j,
            {
                r.push(RenderStep::BindBuffers { object: i, submesh: j });
                r.push(RenderStep::ActivateMaterial { object: i });
                r.push(RenderStep::PushUniforms { object: i });
                r.push(RenderStep::DrawIndexed { object: i, submesh: j });
                r.push(RenderStep::ReleaseBuffers { object: i, submesh: j });
                proof {
                    assert(object_steps(i as int, j + 1) == object_steps(i as int, j as int)
                        + submesh_steps(i as int, j as int));
                    assert(r@ =~= seq![RenderStep::Clear] + objects_steps(
                        counts@.subrange(0, i as int),
                    ) + object_steps(i as int, j + 1));
                }
                j = j + 1;
            }
            proof {
                assert(counts@.subrange(0, i + 1).drop_last() =~= counts@.subrange(0, i as int));
                assert(counts@.subrange(0, i + 1).last() == counts@[i as int]);
                assert(objects_steps(counts@.subrange(0, i + 1)) == objects_steps(
                    counts@.subrange(0, i as int),
                ) + object_steps(i as int, m as int));
                assert(r@ =~= seq![RenderStep::Clear] + objects_steps(counts@.subrange(0, i + 1)));
            }
            i = i + 1;
        }
        r.push(RenderStep::Present);
        proof {
            assert(counts@.subrange(0, n as int) =~= counts@);
            assert(r@ =~= frame_plan_spec(counts@));
        }
        r
    }
}

} // verus!
