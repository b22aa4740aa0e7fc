use vstd::prelude::*;
use crate::ui::comp::Entity;
use crate::ui::input::WidgetInput;

verus! {

/// Hands out increasing widget depths; used when a root widget is created or
/// brought to the front.
pub struct NextDepth {
    next: u64,
}

impl Default for NextDepth {
    fn default() -> (r: Self)
        ensures
            r.peek() == 0,
    {
        Self { next: 0 }
    }
}

impl NextDepth {
    /// The depth that `get_next` returns next.
    pub closed spec fn peek(&self) -> u64 {
        self.next
    }

    /// The depth that `get_next` returns next.
    pub fn peek_next(&self) -> (r: u64)
        ensures
            r == self.peek(),
    {
        self.next
    }

    pub fn get_next(&mut self) -> (r: u64)
        requires
            old(self).peek() < u64::MAX,
        ensures
            r == old(self).peek(),
            final(self).peek() == old(self).peek() + 1,
            r < final(self).peek(),
    {
        let next = self.next;
        self.next = self.next + 1;
        next
    }
}

/// Messages produced by the widgets, in the order they were produced.
pub struct OutputQueue<Message> {
    vec: Vec<Message>,
}

impl<Message> OutputQueue<Message> {
    pub closed spec fn messages(&self) -> Seq<Message> {
        self.vec@
    }

    pub fn add(&mut self, message: Message)
        ensures
            final(self).messages() == old(self).messages().push(message),
    {
        self.vec.push(message);
    }

    pub fn as_slice(&self) -> (r: &[Message])
        ensures
            r@ == self.messages(),
    {
        self.vec.as_slice()
    }

    pub fn iter(&self) -> (r: std::slice::Iter<'_, Message>)
        ensures
            vstd::std_specs::iter::IteratorSpec::remaining(&r) == self.messages().map_values(
                |m: Message| &m,
            ),
    {
        self.vec.iter()
    }

    pub fn clear(&mut self)
        ensures
            final(self).messages() == Seq::<Message>::empty(),
    {
        self.vec.clear();
    }
}

impl<Message> Default for OutputQueue<Message> {
    fn default() -> (r: Self)
        ensures
            r.messages() == Seq::<Message>::empty(),
    {
        Self { vec: Vec::new() }
    }
}

impl<Message> IntoIterator for OutputQueue<Message> {
    type Item = Message;
    type IntoIter = std::vec::IntoIter<Message>;

    /// The messages, oldest first.
    fn into_iter(self) -> (r: std::vec::IntoIter<Message>)
        ensures
            vstd::std_specs::iter::IteratorSpec::remaining(&r) == self.messages(),
    {
        self.vec.into_iter()
    }
}

/// Inputs waiting to be processed by the widgets, oldest first.
pub struct InputQueue {
    vec: Vec<WidgetInput>,
}

impl InputQueue {
    pub closed spec fn inputs(&self) -> Seq<WidgetInput> {
        self.vec@
    }

    pub fn add(&mut self, input: WidgetInput)
        ensures
            final(self).inputs() == old(self).inputs().push(input),
    {
        self.vec.push(input);
    }

    /// Takes the oldest input out of the queue.
    pub fn pop(&mut self) -> (r: Option<WidgetInput>)
        ensures
            old(self).inputs().len() == 0 ==> r is None && final(self).inputs() == old(self).inputs(),
            old(self).inputs().len() > 0 ==> r == Some(old(self).inputs()[0]) && final(self).inputs()
                == old(self).inputs().drop_first(),
    {
        if self.vec.is_empty() {
            None
        } else {
            Some(self.vec.remove(0))
        }
    }

    pub fn as_slice(&self) -> (r: &[WidgetInput])
        ensures
            r@ == self.inputs(),
    {
        self.vec.as_slice()
    }

    /// The inputs, oldest first.
    pub fn iter(&self) -> (r: std::slice::Iter<'_, WidgetInput>)
        ensures
            vstd::std_specs::iter::IteratorSpec::remaining(&r) == self.inputs().map_values(
                |m: WidgetInput| &m,
            ),
    {
        self.vec.iter()
    }

    pub fn clear(&mut self)
        ensures
            final(self).inputs() == Seq::<WidgetInput>::empty(),
    {
        self.vec.clear();
    }
}

impl Default for InputQueue {
    fn default() -> (r: Self)
        ensures
            r.inputs() == Seq::<WidgetInput>::empty(),
    {
        Self { vec: Vec::new() }
    }
}

/// The widget that receives the keyboard, if any.
pub struct FocusedWidget {
    focused: Option<Entity>,
}

impl FocusedWidget {
    pub closed spec fn focused(&self) -> Option<Entity> {
        self.focused
    }

    pub fn set(&mut self, entity: Entity)
        ensures
            final(self).focused() == Some(entity),
    {
        self.focused = Some(entity);
    }

    pub fn clear(&mut self)
        ensures
            final(self).focused() is None,
    {
        self.focused = None;
    }

    pub fn get(&self) -> (r: Option<Entity>)
        ensures
            r == self.focused(),
    {
        self.focused
    }

    pub fn has_focus(&self) -> (r: bool)
        ensures
            r == self.focused() is Some,
    {
        self.focused.is_some()
    }
}

impl Default for FocusedWidget {
    fn default() -> (r: Self)
        ensures
            r.focused() is None,
    {
        Self { focused: None }
    }
}

/// The root widgets, in the order they were added.
pub struct WidgetRoots {
    pub roots: Vec<Entity>,
}

impl WidgetRoots {
    pub fn new() -> (r: Self)
        ensures
            r.roots@ == Seq::<Entity>::empty(),
    {
        Self { roots: Vec::new() }
    }

    pub fn add_to_root(&mut self, entity: Entity)
        ensures
            final(self).roots@ == old(self).roots@.push(entity),
    {
        self.roots.push(entity);
    }

    /// Removes the first occurrence of `entity` from the roots.
    pub fn remove_from_root(&mut self, entity: Entity)
        requires
            old(self).roots@.contains(entity),
        ensures
            exists|i: int|
                0 <= i < old(self).roots@.len() && old(self).roots@[i] == entity && (forall|j: int|
                    0 <= j < i ==> old(self).roots@[j] != entity) && final(self).roots@ == old(
                    self,
                ).roots@.remove(i),
    {
        let mut idx: usize = 0;
        while idx < self.roots.len()
            invariant
                self.roots@ == old(self).roots@,
                old(self).roots@.contains(entity),
                idx <= self.roots.len(),
                forall|j: int| 0 <= j < idx ==> self.roots@[j] != entity,
            ensures
                idx < self.roots.len(),
                self.roots@[idx as int] == entity,
                forall|j: int| 0 <= j < idx ==> self.roots@[j] != entity,
            decreases self.roots.len() - idx,
        {
            if self.roots[idx] == entity {
                break;
            }
            idx = idx + 1;
        }
        let ghost before = self.roots@;
        assert(before[idx as int] == entity);
        self.roots.remove(idx);
        assert(self.roots@ == before.remove(idx as int));
    }
}

} // verus!
