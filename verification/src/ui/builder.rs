use vstd::prelude::*;
use crate::ui::comp::Entity;

verus! {

/// Bookkeeping of widget construction: the stack of parents that new widgets
/// are attached to, and the widget built last. A widget built with no parent
/// on the stack becomes a root.
pub struct WidgetBuilder {
    parent_stack: Vec<Entity>,
    last_entity: Option<Entity>,
}

/// `b` is `a` after `begin_child`.
pub open spec fn begun_child(a: WidgetBuilder, b: WidgetBuilder) -> bool {
    &&& a.last() is Some
    &&& b.parents() == a.parents().push(a.last()->0)
    &&& b.last() == a.last()
}

/// `b` is `a` after `end_child`.
pub open spec fn ended_child(a: WidgetBuilder, b: WidgetBuilder) -> bool {
    &&& b.parents() == if a.parents().len() > 0 {
        a.parents().drop_last()
    } else {
        a.parents()
    }
    &&& b.last() is None
}

/// Inside a child scope new widgets are children of the widget built last;
/// closing the scope gives back the parent stack of before, so the widgets
/// built after it are siblings of the widget built before it.
pub proof fn law_child_scope_restores_parent(a: WidgetBuilder, b: WidgetBuilder, c: WidgetBuilder)
    requires
        begun_child(a, b),
        ended_child(b, c),
    ensures
        b.spec_parent() == a.last(),
        c.parents() == a.parents(),
        c.spec_parent() == a.spec_parent(),
{
    assert(a.parents().push(a.last()->0).drop_last() =~= a.parents());
}

impl WidgetBuilder {
    pub closed spec fn parents(&self) -> Seq<Entity> {
        self.parent_stack@
    }

    pub closed spec fn last(&self) -> Option<Entity> {
        self.last_entity
    }

    /// The parent that new widgets get: the top of the stack.
    pub open spec fn spec_parent(&self) -> Option<Entity> {
        if self.parents().len() == 0 {
            None
        } else {
            Some(self.parents().last())
        }
    }

    pub fn new() -> (r: Self)
        ensures
            r.parents() == Seq::<Entity>::empty(),
            r.last() is None,
    {
        Self { parent_stack: Vec::new(), last_entity: None }
    }

    pub fn get_parent(&self) -> (r: Option<Entity>)
        ensures
            r == self.spec_parent(),
    {
        let n = self.parent_stack.len();
        if n == 0 {
            None
        } else {
            Some(self.parent_stack[n - 1])
        }
    }

    /// Records that `entity` was built; returns the parent it is to be linked
    /// to, or `None` when it is a root.
    pub fn add_widget(&mut self, entity: Entity) -> (r: Option<Entity>)
        ensures
            r == old(self).spec_parent(),
            final(self).parents() == old(self).parents(),
            final(self).last() == Some(entity),
    {
        let parent = self.get_parent();
        self.last_entity = Some(entity);
        parent
    }

    /// Widgets built from now on are children of the widget built last.
    pub fn begin_child(&mut self)
        requires
            old(self).last() is Some,
        ensures
            begun_child(*old(self), *final(self)),
    {
        let last_entity = self.last_entity.unwrap();
        self.parent_stack.push(last_entity);
    }

    /// Widgets built from now on are siblings of the current parent.
    pub fn end_child(&mut self)
        ensures
            ended_child(*old(self), *final(self)),
    {
        self.last_entity = None;
        let _ = self.parent_stack.pop();
    }

    /// The widget built last, if any.
    pub fn query_id(&self, entity: &mut Option<Entity>)
        ensures
            *final(entity) == self.last(),
    {
        *entity = self.last_entity;
    }
}

} // verus!
