//! Walks over the fragments of a collection: the command that applies before
//! each fragment, resolved in one pass over sparse updates, and its content
//! and annotation.
use vstd::prelude::*;

use crate::difference::UpdateCommand;
use crate::display::{OSControl, StyleUpdate};
use crate::write::Content;

verus! {

/// Whether the updates begin at strictly increasing fragment indices.
pub open spec fn sorted_updates(updates: Seq<StyleUpdate>) -> bool {
    forall|i: int, j: int|
        0 <= i < j < updates.len() ==> #[trigger] updates[i].begins_at
            < #[trigger] updates[j].begins_at
}

/// The update in force at fragment `index`: the last one that begins at or
/// before it, or none when every update begins after it.
pub open spec fn update_at(updates: Seq<StyleUpdate>, index: int) -> Option<StyleUpdate>
    decreases updates.len(),
{
    if updates.len() == 0 {
        None
    } else if updates.last().begins_at <= index {
        Some(updates.last())
    } else {
        update_at(updates.drop_last(), index)
    }
}

/// The command in force at fragment `index`: that of the last update that
/// begins at or before it, or nothing when there is none.
pub open spec fn command_at(updates: Seq<StyleUpdate>, index: int) -> UpdateCommand {
    match update_at(updates, index) {
        Some(u) => u.command,
        None => UpdateCommand::DoNothing,
    }
}

/// When the first `p` updates begin at or before `index` and the others after
/// it, the update in force there is the `p`-th.
pub proof fn lemma_update_at_split(updates: Seq<StyleUpdate>, index: int, p: int)
    requires
        0 <= p <= updates.len(),
        forall|i: int| 0 <= i < p ==> #[trigger] updates[i].begins_at <= index,
        forall|i: int| p <= i < updates.len() ==> #[trigger] updates[i].begins_at > index,
    ensures
        update_at(updates, index) == (if p > 0 {
            Some(updates[p - 1])
        } else {
            None
        }),
    decreases updates.len(),
{
    if updates.len() > p {
        let rest = updates.drop_last();
        assert(updates.last() == updates[updates.len() - 1]);
        assert forall|i: int| 0 <= i < p implies #[trigger] rest[i].begins_at <= index by {
            assert(rest[i] == updates[i]);
        }
        assert forall|i: int| p <= i < rest.len() implies #[trigger] rest[i].begins_at > index by {
            assert(rest[i] == updates[i]);
        }
        lemma_update_at_split(rest, index, p);
        if p > 0 {
            assert(rest[p - 1] == updates[p - 1]);
        }
    } else if p > 0 {
        assert(updates[p - 1].begins_at <= index);
    }
}

/// In sorted updates, the one at position `i` is in force at the index where
/// it begins.
pub proof fn lemma_command_at(updates: Seq<StyleUpdate>, i: int)
    requires
        sorted_updates(updates),
        0 <= i < updates.len(),
    ensures
        command_at(updates, updates[i].begins_at as int) == updates[i].command,
{
    let k = updates[i].begins_at as int;
    assert forall|j: int| 0 <= j < i + 1 implies #[trigger] updates[j].begins_at <= k by {
        if j < i {
            assert(updates[j].begins_at < updates[i].begins_at);
        }
    }
    assert forall|j: int| i + 1 <= j < updates.len() implies #[trigger] updates[j].begins_at > k by {
        assert(updates[i].begins_at < updates[j].begins_at);
    }
    lemma_update_at_split(updates, k, i + 1);
}

/// Walks the fragment indices one by one and yields, for each, the command
/// in force there (the last update that began at or before it), with a
/// single pass over sorted, sparse updates.
pub struct StyleIter<'a> {
    cursor: usize,
    instructions: &'a Vec<StyleUpdate>,
    next_update: usize,
    current: Option<StyleUpdate>,
}

impl<'a> StyleIter<'a> {
    /// The updates walked over.
    pub closed spec fn updates(&self) -> Seq<StyleUpdate> {
        self.instructions@
    }

    /// The index of the next fragment.
    pub closed spec fn position(&self) -> nat {
        self.cursor as nat
    }

    /// The updates are sorted; those before `next_update` begin before the
    /// cursor, the others at or after it; `current` is the last one taken.
    pub closed spec fn inv(&self) -> bool {
        &&& sorted_updates(self.instructions@)
        &&& self.current == (if self.next_update > 0 {
            Some(self.instructions@[self.next_update - 1])
        } else {
            None
        })
        &&& self.next_update <= self.instructions@.len()
        &&& forall|i: int|
            0 <= i < self.next_update ==> #[trigger] self.instructions@[i].begins_at < self.cursor
        &&& forall|i: int|
            self.next_update <= i < self.instructions@.len()
                ==> #[trigger] self.instructions@[i].begins_at >= self.cursor
    }

    /// A walk from the first fragment.
    pub fn new(instructions: &'a Vec<StyleUpdate>) -> (r: StyleIter<'a>)
        requires
            sorted_updates(instructions@),
        ensures
            r.inv(),
            r.updates() == instructions@,
            r.position() == 0,
    {
        StyleIter { cursor: 0, instructions, next_update: 0, current: None }
    }

    /// Takes the next update if it begins at the cursor.
    fn get_next_update(&mut self) -> (r: Option<StyleUpdate>)
        requires
            old(self).inv(),
        ensures
            final(self).cursor == old(self).cursor,
            final(self).instructions == old(self).instructions,
            final(self).current == old(self).current,
            old(self).next_update < old(self).instructions@.len()
                && old(self).instructions@[old(self).next_update as int].begins_at
                == old(self).cursor ==> r == Some(old(self).instructions@[old(self).next_update as int])
                && final(self).next_update == old(self).next_update + 1,
            !(old(self).next_update < old(self).instructions@.len()
                && old(self).instructions@[old(self).next_update as int].begins_at
                == old(self).cursor) ==> r.is_none() && final(self).next_update
                == old(self).next_update,
    {
        if self.next_update < self.instructions.len() && self.instructions[self.next_update].begins_at
            == self.cursor {
            let u = self.instructions[self.next_update];
            self.next_update += 1;
            Some(u)
        } else {
            None
        }
    }

    /// The command in force at the cursor, `None` while no update has begun;
    /// the cursor moves on.
    pub fn next(&mut self) -> (r: Option<UpdateCommand>)
        requires
            old(self).inv(),
            old(self).position() < usize::MAX,
        ensures
            final(self).inv(),
            final(self).updates() == old(self).updates(),
            final(self).position() == old(self).position() + 1,
            r == (match update_at(old(self).updates(), old(self).position() as int) {
                Some(u) => Some(u.command),
                None => None,
            }),
    {
        let ghost k = self.cursor as int;
        let ghost us = self.instructions@;
        let ghost first = self.next_update as int;
        if let Some(u) = self.get_next_update() {
            self.current = Some(u);
        }
        proof {
            let p = self.next_update as int;
            assert forall|i: int| 0 <= i < p implies #[trigger] us[i].begins_at <= k by {
                if i == first {
                } else {
                    assert(us[i].begins_at < k);
                }
            }
            assert forall|i: int| p <= i < us.len() implies #[trigger] us[i].begins_at > k by {
                if first < i {
                    assert(us[first].begins_at < us[i].begins_at);
                }
            }
            lemma_update_at_split(us, k, p);
            assert(self.current == (if p > 0 {
                Some(us[p - 1])
            } else {
                None
            }));
        }
        self.cursor = self.cursor + 1;
        match self.current {
            Some(u) => Some(u.command),
            None => None,
        }
    }
}

/// Walks the contents and annotations of the fragments in order.
pub struct ContentIter<'b, S> {
    cursor: usize,
    contents: &'b Vec<Content<S>>,
    oscontrols: &'b Vec<Option<OSControl<S>>>,
}

impl<'b, S> ContentIter<'b, S> {
    /// The contents walked over.
    pub closed spec fn contents(&self) -> Seq<Content<S>> {
        self.contents@
    }

    /// The annotations walked over.
    pub closed spec fn oscontrols(&self) -> Seq<Option<OSControl<S>>> {
        self.oscontrols@
    }

    /// The index of the next fragment.
    pub closed spec fn position(&self) -> nat {
        self.cursor as nat
    }

    /// A walk from the first fragment.
    pub fn new(contents: &'b Vec<Content<S>>, oscontrols: &'b Vec<Option<OSControl<S>>>) -> (r:
        ContentIter<'b, S>)
        ensures
            r.contents() == contents@,
            r.oscontrols() == oscontrols@,
            r.position() == 0,
    {
        ContentIter { cursor: 0, contents, oscontrols }
    }

    /// The content and annotation at the cursor, if any is left; the cursor
    /// moves on past it.
    pub fn next(&mut self) -> (r: Option<(&'b Content<S>, &'b Option<OSControl<S>>)>)
        requires
            old(self).contents().len() == old(self).oscontrols().len(),
        ensures
            final(self).contents() == old(self).contents(),
            final(self).oscontrols() == old(self).oscontrols(),
            old(self).position() < old(self).contents().len() ==> r == Some(
                (
                    &old(self).contents()[old(self).position() as int],
                    &old(self).oscontrols()[old(self).position() as int],
                ),
            ) && final(self).position() == old(self).position() + 1,
            old(self).position() >= old(self).contents().len() ==> r.is_none() && final(self).position() == old(self).position(),
    {
        if self.cursor < self.contents.len() {
            let r = (&self.contents[self.cursor], &self.oscontrols[self.cursor]);
            self.cursor += 1;
            Some(r)
        } else {
            None
        }
    }
}

/// Walks the fragments in order, with the command that applies before each.
pub struct WriteIter<'b, S> {
    style_iter: StyleIter<'b>,
    content_iter: ContentIter<'b, S>,
}

impl<'b, S> WriteIter<'b, S> {
    /// The two walks move together.
    pub closed spec fn inv(&self) -> bool {
        &&& self.style_iter.inv()
        &&& self.style_iter.position() == self.content_iter.position()
        &&& self.content_iter.contents().len() == self.content_iter.oscontrols().len()
    }

    pub closed spec fn updates(&self) -> Seq<StyleUpdate> {
        self.style_iter.updates()
    }

    pub closed spec fn contents(&self) -> Seq<Content<S>> {
        self.content_iter.contents()
    }

    pub closed spec fn oscontrols(&self) -> Seq<Option<OSControl<S>>> {
        self.content_iter.oscontrols()
    }

    pub closed spec fn position(&self) -> nat {
        self.content_iter.position()
    }

    /// The two walks, moved together.
    pub fn new(style_iter: StyleIter<'b>, content_iter: ContentIter<'b, S>) -> (r: WriteIter<'b, S>)
        requires
            style_iter.inv(),
            style_iter.position() == content_iter.position(),
            content_iter.contents().len() == content_iter.oscontrols().len(),
        ensures
            r.inv(),
            r.updates() == style_iter.updates(),
            r.contents() == content_iter.contents(),
            r.oscontrols() == content_iter.oscontrols(),
            r.position() == content_iter.position(),
    {
        WriteIter { style_iter, content_iter }
    }

    /// The command, content and annotation of the next fragment, if any is
    /// left.
    pub fn next(&mut self) -> (r: Option<(UpdateCommand, &'b Content<S>, &'b Option<OSControl<S>>)>)
        requires
            old(self).inv(),
        ensures
            final(self).inv(),
            final(self).updates() == old(self).updates(),
            final(self).contents() == old(self).contents(),
            final(self).oscontrols() == old(self).oscontrols(),
            old(self).position() < old(self).contents().len() ==> r == Some(
                (
                    command_at(old(self).updates(), old(self).position() as int),
                    &old(self).contents()[old(self).position() as int],
                    &old(self).oscontrols()[old(self).position() as int],
                ),
            ) && final(self).position() == old(self).position() + 1,
            old(self).position() >= old(self).contents().len() ==> r.is_none() && final(self).position() == old(self).position(),
    {
        match self.content_iter.next() {
            Some((content, oscontrol)) => {
                let command = match self.style_iter.next() {
                    Some(c) => c,
                    None => UpdateCommand::DoNothing,
                };
                Some((command, content, oscontrol))
            },
            None => None,
        }
    }
}

} // verus!
