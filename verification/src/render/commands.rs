use vstd::prelude::*;

verus! {

/// A command sent to the rendering thread: draw a frame of what the blueprint
/// holds, resize the surface (width, height), or end the thread.
pub enum Command<B> {
    Render(B),
    /// new surface size in pixels (width, height)
    Resize(u32, u32),
    Exit,
}

/// How drawing one frame ended.
#[derive(Copy, Clone, Debug, PartialEq, Eq, Structural)]
pub enum FrameOutcome {
    Drawn,
    Timeout,
    Outdated,
    Lost,
    OutOfMemory,
}

/// What the rendering loop does after a frame.
#[derive(Copy, Clone, Debug, PartialEq, Eq, Structural)]
pub enum LoopStep {
    /// wait for the next command
    Continue,
    /// rebuild the surface at the current size, then continue
    ResizeSelf,
    /// leave the rendering loop
    Stop,
    /// report the error, then continue
    Report,
}

/// A drawn frame goes on; a lost surface is recreated at its own size; out of
/// memory ends the loop; any other failure is reported and the loop goes on.
pub fn after_frame(outcome: FrameOutcome) -> (r: LoopStep)
    ensures
        r == match outcome {
            FrameOutcome::Drawn => LoopStep::Continue,
            FrameOutcome::Lost => LoopStep::ResizeSelf,
            FrameOutcome::OutOfMemory => LoopStep::Stop,
            _ => LoopStep::Report,
        },
{
    match outcome {
        FrameOutcome::Drawn => LoopStep::Continue,
        FrameOutcome::Lost => LoopStep::ResizeSelf,
        FrameOutcome::OutOfMemory => LoopStep::Stop,
        _ => LoopStep::Report,
    }
}

/// Whether the rendering loop goes on after this command: all but `Exit`.
pub fn keeps_running<B>(command: &Command<B>) -> (r: bool)
    ensures
        r == !(command is Exit),
{
    match command {
        Command::Exit => false,
        _ => true,
    }
}

/// The first group of glyphs drawn with the font atlas `atlas_idx`, if any.
pub fn find_atlas_group<T>(groups: &Vec<(usize, T)>, atlas_idx: usize) -> (r: Option<usize>)
    ensures
        r matches Some(p) ==> p < groups@.len() && groups@[p as int].0 == atlas_idx && forall|j: int|
            0 <= j < p ==> groups@[j].0 != atlas_idx,
        r is None ==> forall|j: int| 0 <= j < groups@.len() ==> groups@[j].0 != atlas_idx,
{
    let mut p: usize = 0;
    while p < groups.len()
        invariant
            p <= groups@.len(),
            forall|j: int| 0 <= j < p ==> groups@[j].0 != atlas_idx,
        decreases groups@.len() - p,
    {
        if groups[p].0 == atlas_idx {
            return Some(p);
        }
        p = p + 1;
    }
    None
}

/// Remembers the world material the chunk pipeline was last built for.
pub struct PipelineTracker {
    current_world_material_hash: Option<u64>,
}

impl PipelineTracker {
    /// The hash of the material the pipeline was last built for.
    pub closed spec fn current(&self) -> Option<u64> {
        self.current_world_material_hash
    }

    pub fn new() -> (r: Self)
        ensures
            r.current() is None,
    {
        PipelineTracker { current_world_material_hash: None }
    }

    /// Records `hash` as the current world material; says whether the
    /// pipeline has to be rebuilt for it.
    pub fn world_material_changed(&mut self, hash: u64) -> (changed: bool)
        ensures
            changed == (old(self).current() != Some(hash)),
            final(self).current() == Some(hash),
    {
        let changed = match self.current_world_material_hash {
            Some(h) => h != hash,
            None => true,
        };
        self.current_world_material_hash = Some(hash);
        changed
    }
}

} // verus!
