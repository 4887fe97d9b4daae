//! The GPU program build protocol.
//!
//! The backend compiles each stage and links the pair; it reports each step
//! as a handle or a diagnostic log. The decisions live here: which failure
//! is reported, with its log surfaced rather than swallowed, and which
//! intermediate stage handles must be released once linking has succeeded.

use vstd::prelude::*;

verus! {

/// A shading program: its two stage handles and, once linked, the program
/// handle.
#[derive(Clone, Copy, Debug, PartialEq, Eq, Structural)]
pub struct RatShader {
    pub vert_id: u32,
    pub frag_id: u32,
    pub shader_program: u32,
}

/// Failure of a program build, carrying the backend's diagnostic log.
#[derive(Debug, PartialEq, Eq)]
pub enum ShaderError {
    /// A stage failed to compile.
    CompileError(String),
    /// The linked program failed to link.
    LinkError(String),
}

impl RatShader {
    /// Pair the results of compiling the vertex and fragment stages into an
    /// unlinked shader. A compile failure is reported with its log, the
    /// vertex stage first.
    pub fn from_stages(vert: Result<u32, String>, frag: Result<u32, String>) -> (r: Result<
        RatShader,
        ShaderError,
    >)
        ensures
            match r {
                Ok(s) => vert matches Ok(v) && frag matches Ok(f) && s == (RatShader {
                    vert_id: v,
                    frag_id: f,
                    shader_program: 0u32,
                }),
                Err(ShaderError::CompileError(log)) => (vert matches Err(l) && log == l) || (vert
                    matches Ok(_) && frag matches Err(l) && log == l),
                Err(ShaderError::LinkError(_)) => false,
            },
    {
        match vert {
            Err(log) => Err(ShaderError::CompileError(log)),
            Ok(v) => match frag {
                Err(log) => Err(ShaderError::CompileError(log)),
                Ok(f) => Ok(RatShader { vert_id: v, frag_id: f, shader_program: 0 }),
            },
        }
    }

    /// Take the result of linking this shader's stages. On success the
    /// linked shader is returned together with the two stage handles, which
    /// are no longer needed and must be released by the caller; on failure
    /// the log is surfaced and nothing is released.
    pub fn finish_link(self, link: Result<u32, String>) -> (r: (
        Result<RatShader, ShaderError>,
        Vec<u32>,
    ))
        ensures
            match link {
                Ok(p) => r.0 == Ok::<_, ShaderError>(
                    RatShader { vert_id: self.vert_id, frag_id: self.frag_id, shader_program: p },
                ) && r.1@ == seq![self.vert_id, self.frag_id],
                Err(log) => (r.0 matches Err(ShaderError::LinkError(l)) && l == log) && r.1@
                    == Seq::<u32>::empty(),
            },
    {
        match link {
            Ok(p) => {
                let mut stale: Vec<u32> = Vec::new();
                stale.push(self.vert_id);
                stale.push(self.frag_id);
                proof {
                    assert(stale@ =~= seq![self.vert_id, self.frag_id]);
                }
                (
                    Ok(
                        RatShader {
                            vert_id: self.vert_id,
                            frag_id: self.frag_id,
                            shader_program: p,
                        },
                    ),
                    stale,
                )
            },
            Err(log) => {
                let stale: Vec<u32> = Vec::new();
                proof {
                    assert(stale@ =~= Seq::<u32>::empty());
                }
                (Err(ShaderError::LinkError(log)), stale)
            },
        }
    }
}

} // verus!
