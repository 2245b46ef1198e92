//! The lighting pass's per-frame decisions: whether a pipeline is ready to
//! draw with, when to ask for one, and what to do with a compile's outcome.
use vstd::prelude::*;

use crate::layout::OutputFormat;

verus! {

/// Where the lighting pass stands with respect to its pipeline.
#[derive(Clone, Copy, Debug, PartialEq, Eq, Structural)]
pub enum LightingPassState {
    /// No pipeline for `format` yet; `requested` tells whether one was asked for.
    Pending { format: OutputFormat, requested: bool },
    /// The pipeline `pipeline` draws into `format`.
    Ready { format: OutputFormat, pipeline: u64 },
}

/// What the host does this frame.
#[derive(Clone, Copy, Debug, PartialEq, Eq, Structural)]
pub enum FrameAction {
    /// Leave the scene colour as it is.
    PassThrough,
    /// Ask for a pipeline for the format, and leave the scene colour as it is.
    RequestPipeline { format: OutputFormat },
    /// Draw the full-screen lighting pass with the pipeline.
    Draw { pipeline: u64 },
}

/// How a pipeline compile ended.
#[derive(Clone, Copy, Debug, PartialEq, Eq, Structural)]
pub enum CompileOutcome {
    Compiled { pipeline: u64 },
    Failed,
}

/// What the host does with a compile's outcome.
#[derive(Clone, Copy, Debug, PartialEq, Eq, Structural)]
pub enum CompileResponse {
    /// The pipeline is in use from now on.
    Installed,
    /// Report the failure through the host's diagnostics; lighting stays off.
    ReportFailure,
    /// The outcome is for a format no longer wanted, or nothing was asked.
    Ignore,
}

/// The state after a frame whose target has `target` as format, and the action.
pub open spec fn frame_step(s: LightingPassState, target: OutputFormat) -> (LightingPassState, FrameAction) {
    match s {
        LightingPassState::Ready { format, pipeline } => if format == target {
            (s, FrameAction::Draw { pipeline })
        } else {
            (LightingPassState::Pending { format: target, requested: true }, FrameAction::RequestPipeline { format: target })
        },
        LightingPassState::Pending { format, requested } => if format == target && requested {
            (s, FrameAction::PassThrough)
        } else {
            (LightingPassState::Pending { format: target, requested: true }, FrameAction::RequestPipeline { format: target })
        },
    }
}

/// The state after a compile for `format` ends with `outcome`, and the response.
pub open spec fn compile_step(s: LightingPassState, format: OutputFormat, outcome: CompileOutcome) -> (LightingPassState, CompileResponse) {
    match s {
        LightingPassState::Pending { format: wanted, requested } => if wanted == format && requested {
            match outcome {
                CompileOutcome::Compiled { pipeline } => (LightingPassState::Ready { format, pipeline }, CompileResponse::Installed),
                CompileOutcome::Failed => (s, CompileResponse::ReportFailure),
            }
        } else {
            (s, CompileResponse::Ignore)
        },
        LightingPassState::Ready { .. } => (s, CompileResponse::Ignore),
    }
}

impl LightingPassState {
    /// A pass that has no pipeline and has asked for none.
    pub fn new(format: OutputFormat) -> (r: Self)
        ensures
            r == (LightingPassState::Pending { format, requested: false }),
    {
        LightingPassState::Pending { format, requested: false }
    }

    /// Decides this frame: draw with the cached pipeline when it was built
    /// for the target's format, else ask (once) for a pipeline and pass the
    /// scene colour through.
    pub fn on_frame(&mut self, target: OutputFormat) -> (r: FrameAction)
        ensures
            (*final(self), r) == frame_step(*old(self), target),
    {
        match *self {
            LightingPassState::Ready { format, pipeline } => {
                if format == target {
                    FrameAction::Draw { pipeline }
                } else {
                    *self = LightingPassState::Pending { format: target, requested: true };
                    FrameAction::RequestPipeline { format: target }
                }
            },
            LightingPassState::Pending { format, requested } => {
                if format == target && requested {
                    FrameAction::PassThrough
                } else {
                    *self = LightingPassState::Pending { format: target, requested: true };
                    FrameAction::RequestPipeline { format: target }
                }
            },
        }
    }

    /// Takes the outcome of the compile asked for `format`. A failure keeps
    /// the pass pending, without a new request, until the format changes or
    /// the pipeline is invalidated.
    pub fn on_compiled(&mut self, format: OutputFormat, outcome: CompileOutcome) -> (r: CompileResponse)
        ensures
            (*final(self), r) == compile_step(*old(self), format, outcome),
    {
        match *self {
            LightingPassState::Pending { format: wanted, requested } => {
                if wanted == format && requested {
                    match outcome {
                        CompileOutcome::Compiled { pipeline } => {
                            *self = LightingPassState::Ready { format, pipeline };
                            CompileResponse::Installed
                        },
                        CompileOutcome::Failed => CompileResponse::ReportFailure,
                    }
                } else {
                    CompileResponse::Ignore
                }
            },
            LightingPassState::Ready { .. } => CompileResponse::Ignore,
        }
    }

    /// Drops the cached pipeline: the next frame asks for a new one.
    pub fn invalidate(&mut self)
        ensures
            *final(self) == (LightingPassState::Pending {
                format: match *old(self) {
                    LightingPassState::Pending { format, .. } => format,
                    LightingPassState::Ready { format, .. } => format,
                },
                requested: false,
            }),
    {
        let format = match *self {
            LightingPassState::Pending { format, .. } => format,
            LightingPassState::Ready { format, .. } => format,
        };
        *self = LightingPassState::Pending { format, requested: false };
    }
}

/// A ready pass whose target keeps its format draws with the same pipeline
/// every frame and never asks for another.
pub proof fn ready_pass_reuses_pipeline(s: LightingPassState, target: OutputFormat)
    requires
        s == (LightingPassState::Ready { format: target, pipeline: s->Ready_pipeline }),
    ensures
        frame_step(s, target) == (s, FrameAction::Draw { pipeline: s->Ready_pipeline }),
{
}


/// From a fresh pass, the first frame asks for a pipeline; once that compile
/// succeeds, the next frame with the same format draws with it.
pub proof fn requested_pipeline_is_drawn_once_compiled(format: OutputFormat, pipeline: u64)
    ensures
        ({
            let (s1, a1) = frame_step(LightingPassState::Pending { format, requested: false }, format);
            let (s2, c2) = compile_step(s1, format, CompileOutcome::Compiled { pipeline });
            let (s3, a3) = frame_step(s2, format);
            &&& a1 == FrameAction::RequestPipeline { format }
            &&& c2 == CompileResponse::Installed
            &&& a3 == FrameAction::Draw { pipeline }
            &&& s3 == LightingPassState::Ready { format, pipeline }
        }),
{
}

/// A failed compile leaves the pass pending, passing the scene colour
/// through, without asking again while the format stays the same.
pub proof fn failed_compile_keeps_pass_through(format: OutputFormat)
    ensures
        ({
            let s1 = LightingPassState::Pending { format, requested: true };
            let (s2, c2) = compile_step(s1, format, CompileOutcome::Failed);
            let (s3, a3) = frame_step(s2, format);
            &&& c2 == CompileResponse::ReportFailure
            &&& a3 == FrameAction::PassThrough
            &&& s3 == s1
        }),
{
}

} // verus!
