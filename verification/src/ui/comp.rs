use vstd::prelude::*;
use crate::ui::input::Interaction;
use crate::ui::res::OutputQueue;

verus! {

/// Identifier of a widget entity.
#[derive(Clone, Copy, Debug, PartialEq, Eq, Structural, Hash)]
pub struct Entity(pub u64);

/// Drawing depth of a widget.
pub struct Depth(u32);

impl Depth {
    pub closed spec fn value(&self) -> u32 {
        self.0
    }

    pub fn new(depth: u32) -> (r: Self)
        ensures
            r.value() == depth,
    {
        Self(depth)
    }
}

/// root widget should have this component
pub struct Root {
    depth: u64,
}

impl Root {
    pub closed spec fn depth(&self) -> u64 {
        self.depth
    }

    pub fn new(depth: u64) -> (r: Self)
        ensures
            r.depth() == depth,
    {
        Self { depth }
    }

    pub fn get_depth(&self) -> (r: u64)
        ensures
            r == self.depth(),
    {
        self.depth
    }

    pub fn set_depth(&mut self, depth: u64)
        ensures
            final(self).depth() == depth,
    {
        self.depth = depth;
    }
}

/// Parent and children of a widget.
pub struct Hierarchy {
    pub parent: Option<Entity>,
    pub children: Vec<Entity>,
}

impl Hierarchy {
    pub fn new(parent: Option<Entity>) -> (r: Self)
        ensures
            r.parent == parent,
            r.children@ == Seq::<Entity>::empty(),
    {
        Self { parent, children: Vec::new() }
    }
}

/// Turns the interactions of a widget into messages for the application.
#[verifier::reject_recursive_types(Message)]
pub struct InteractionHandler<Message, F> where F: Fn(Entity, Interaction) -> Option<Message> {
    handler: F,
    phantom: std::marker::PhantomData<Message>,
}

impl<Message, F> InteractionHandler<Message, F> where F: Fn(Entity, Interaction) -> Option<Message> {
    pub closed spec fn handler(&self) -> F {
        self.handler
    }

    pub fn new(handler: F) -> (r: Self)
        ensures
            r.handler() == handler,
    {
        Self { handler, phantom: std::marker::PhantomData }
    }

    /// Passes the interaction to the handler and queues the message it returns, if any.
    pub fn process(&self, entity: Entity, msg: Interaction, output_queue: &mut OutputQueue<Message>)
        requires
            call_requires(self.handler(), (entity, msg)),
        ensures
            exists|out: Option<Message>|
                call_ensures(self.handler(), (entity, msg), out) && final(output_queue).messages()
                    == match out {
                    Some(m) => old(output_queue).messages().push(m),
                    None => old(output_queue).messages(),
                },
    {
        let out = (self.handler)(entity, msg);
        if let Some(output) = out {
            output_queue.add(output);
        }
    }
}

} // verus!
