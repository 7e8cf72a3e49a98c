//! Readiness/dispatch state machine for the noise compute stage.
//!
//! The state machine is advanced once per scheduler tick. `update` is the
//! pure state transition: it leaves `Loading` only once the compute kernel
//! has finished compiling, and otherwise turns the one-shot generation
//! signal into a single `Generate` activation, consuming the signal.
//! `run` is the dispatch decision: it asks for exactly one compute dispatch
//! per activation, and only when the device-side output image is prepared.

use vstd::prelude::*;

verus! {

/// One-shot cross-boundary trigger for a generation pass. This is a single
/// slot, not a queue: a second arm before the slot is consumed is lost.
#[derive(Clone, Copy, PartialEq, Eq, Structural, Debug)]
pub enum NoiseGenerationRequest {
    /// Do nothing.
    Idle,
    /// A request to run the compute kernel.
    Generate,
}

impl Default for NoiseGenerationRequest {
    fn default() -> (request: Self)
        ensures
            request == NoiseGenerationRequest::Idle,
    {
        NoiseGenerationRequest::Idle
    }
}

/// Readiness/dispatch state of the compute stage.
#[derive(Clone, Copy, PartialEq, Eq, Structural, Debug)]
pub enum NodeState {
    /// Waiting for the compute kernel to finish compiling.
    Loading,
    /// Kernel ready, nothing to do this tick.
    Idle,
    /// A dispatch will be issued this tick.
    Generate,
}

/// Edge length, in invocations, of one compute workgroup.
pub const WORKGROUP_SIZE: u32 = 8;

/// One compute dispatch sized to cover a full chunk extent.
#[derive(Clone, Copy, PartialEq, Eq, Structural, Debug)]
pub struct DispatchCommand {
    pub workgroups_x: u32,
    pub workgroups_y: u32,
    pub workgroups_z: u32,
}

/// The state after one per-tick transition. `Loading` is left only when the
/// kernel reports ready; afterwards the state is `Generate` exactly when the
/// signal was armed, and `Idle` otherwise.
pub open spec fn next_state(
    state: NodeState,
    kernel_ready: bool,
    request: NoiseGenerationRequest,
) -> NodeState {
    match state {
        NodeState::Loading => if kernel_ready {
            NodeState::Idle
        } else {
            NodeState::Loading
        },
        _ => if request == NoiseGenerationRequest::Generate {
            NodeState::Generate
        } else {
            NodeState::Idle
        },
    }
}

/// The signal slot after one per-tick transition: untouched while the kernel
/// is still compiling, and reset to `Idle` (consumed) otherwise.
pub open spec fn next_request(
    state: NodeState,
    kernel_ready: bool,
    request: NoiseGenerationRequest,
) -> NoiseGenerationRequest {
    match state {
        NodeState::Loading => request,
        _ => NoiseGenerationRequest::Idle,
    }
}

/// The per-tick node of the generation pipeline: holds the stage's state and
/// advances it against the kernel-readiness report and the signal slot.
pub struct PerlinNoiseNode {
    state: NodeState,
}

impl PerlinNoiseNode {
    pub closed spec fn state_spec(&self) -> NodeState {
        self.state
    }

    pub fn state(&self) -> (state: NodeState)
        ensures
            state == self.state_spec(),
    {
        self.state
    }

    /// Advance the state machine by one tick: observe the kernel-readiness
    /// report and the generation signal, move to the next state, and consume
    /// the signal if it was read.
    pub fn update(&mut self, kernel_ready: bool, request: &mut NoiseGenerationRequest)
        ensures
            final(self).state_spec() == next_state(
                old(self).state_spec(),
                kernel_ready,
                *old(request),
            ),
            *final(request) == next_request(old(self).state_spec(), kernel_ready, *old(request)),
    {
        match self.state {
            NodeState::Loading => {
                if kernel_ready {
                    self.state = NodeState::Idle;
                }
            },
            _ => {
                if *request == NoiseGenerationRequest::Generate {
                    self.state = NodeState::Generate;
                    *request = NoiseGenerationRequest::Idle;
                } else {
                    self.state = NodeState::Idle;
                }
            },
        }
    }

    /// The effectful half of a tick: decide whether to issue a compute
    /// dispatch. A dispatch is asked for exactly when the state is `Generate`
    /// and the device-side output image is prepared; an unprepared image
    /// skips the tick (retry next tick, not a failure). The dispatch covers
    /// the full chunk extent divided into fixed-size workgroups, depth 1.
    pub fn run(&self, output_image_ready: bool, side: u32) -> (dispatch: Option<DispatchCommand>)
        ensures
            dispatch is Some <==> (self.state_spec() == NodeState::Generate && output_image_ready),
            dispatch is Some ==> dispatch->Some_0 == (DispatchCommand {
                workgroups_x: side / WORKGROUP_SIZE,
                workgroups_y: side / WORKGROUP_SIZE,
                workgroups_z: 1,
            }),
    {
        match self.state {
            NodeState::Generate => {
                if output_image_ready {
                    Some(DispatchCommand {
                        workgroups_x: side / WORKGROUP_SIZE,
                        workgroups_y: side / WORKGROUP_SIZE,
                        workgroups_z: 1,
                    })
                } else {
                    None
                }
            },
            _ => None,
        }
    }
}

impl Default for PerlinNoiseNode {
    /// A fresh node starts out waiting for the kernel to compile.
    fn default() -> (node: Self)
        ensures
            node.state_spec() == NodeState::Loading,
    {
        PerlinNoiseNode { state: NodeState::Loading }
    }
}

/// Once the pipeline has left `Loading` it never returns there: a tick from
/// `Idle` or `Generate` lands in `Generate` exactly when the signal was
/// armed and in `Idle` otherwise, and consumes the signal, so an activation
/// passes `Idle -> Generate -> Idle` and reads the slot exactly once.
pub proof fn lemma_no_return_to_loading(
    state: NodeState,
    kernel_ready: bool,
    request: NoiseGenerationRequest,
)
    requires
        state != NodeState::Loading,
    ensures
        next_state(state, kernel_ready, request) != NodeState::Loading,
        next_state(state, kernel_ready, request) == NodeState::Generate <==> request
            == NoiseGenerationRequest::Generate,
        next_request(state, kernel_ready, request) == NoiseGenerationRequest::Idle,
{
}

/// `Loading` is terminal-once: while the kernel is not ready the state stays
/// `Loading` and the signal slot is left untouched; the first ready report
/// moves the state to `Idle` without consuming the signal.
pub proof fn lemma_loading_waits_for_kernel(kernel_ready: bool, request: NoiseGenerationRequest)
    ensures
        next_state(NodeState::Loading, kernel_ready, request) == if kernel_ready {
            NodeState::Idle
        } else {
            NodeState::Loading
        },
        next_request(NodeState::Loading, kernel_ready, request) == request,
{
}

} // verus!
