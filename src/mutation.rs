//! Mutations as values, and the byte stream that a sequence of them encodes to.
use vstd::prelude::*;
use vstd::string::StringSliceAdditionalSpecFns;

use crate::encoder::{
    flag, le_bytes, maybe_id_bytes, ids_bytes, ns_bytes, ns_fits, present_ids_bytes, root_ids,
    str_bytes, str_fits, upgrade_codes, width_after, Interpreter, APPEND_CHILDREN, CLONE_NODE,
    CLONE_NODE_CHILDREN, CREATE_ELEMENT, CREATE_PLACEHOLDER, CREATE_TEXT_NODE, FIRST_CHILD,
    INSERT_AFTER, INSERT_BEFORE, NEW_EVENT_LISTENER, NEXT_SIBLING, PARENT_NODE, REMOVE,
    REMOVE_ATTRIBUTE, REMOVE_EVENT_LISTENER, REPLACE_WITH, SET_ATTRIBUTE, SET_LAST_NODE, SET_TEXT,
    STOP, STORE_WITH_ID,
};

verus! {

/// One mutation with its arguments, as the encoder's methods take them.
/// `CreateElement` with a namespace is the namespaced element creation.
#[derive(Debug, Clone, Copy)]
pub enum Mutation<'a> {
    AppendChildren { root: Option<u64>, children: &'a [u64] },
    ReplaceWith { root: Option<u64>, nodes: &'a [u64] },
    InsertAfter { root: Option<u64>, nodes: &'a [u64] },
    InsertBefore { root: Option<u64>, nodes: &'a [u64] },
    Remove { root: Option<u64> },
    CreateTextNode { text: &'a str, root: Option<u64> },
    CreateElement { tag: &'a str, root: Option<u64>, ns: Option<&'a str>, child_count: u32 },
    CreatePlaceholder { root: Option<u64> },
    NewEventListener { name: &'a str, root: Option<u64>, bubbles: bool },
    RemoveEventListener { root: Option<u64>, name: &'a str, bubbles: bool },
    SetText { root: Option<u64>, text: &'a str },
    SetAttribute { root: Option<u64>, field: &'a str, value: &'a str, ns: Option<&'a str> },
    RemoveAttribute { root: Option<u64>, field: &'a str, ns: Option<&'a str> },
    CloneNode { root: Option<u64>, new_id: u64 },
    CloneNodeChildren { root: Option<u64>, new_ids: &'a [u64] },
    FirstChild,
    NextSibling,
    ParentNode,
    StoreWithId { id: u64 },
    SetLastNode { id: u64 },
}

/// The identifiers a mutation checks against the negotiated width, in order.
pub open spec fn checked_ids(m: Mutation<'_>) -> Seq<u64> {
    match m {
        Mutation::AppendChildren { root, children } => root_ids(root) + children@,
        Mutation::ReplaceWith { root, nodes } => root_ids(root) + nodes@,
        Mutation::InsertAfter { root, nodes } => root_ids(root) + nodes@,
        Mutation::InsertBefore { root, nodes } => root_ids(root) + nodes@,
        Mutation::Remove { root } => root_ids(root),
        Mutation::CreateTextNode { root, .. } => root_ids(root),
        Mutation::CreateElement { root, .. } => root_ids(root),
        Mutation::CreatePlaceholder { root } => root_ids(root),
        Mutation::NewEventListener { root, .. } => root_ids(root),
        Mutation::RemoveEventListener { root, .. } => root_ids(root),
        Mutation::SetText { root, .. } => root_ids(root),
        Mutation::SetAttribute { root, .. } => root_ids(root),
        Mutation::RemoveAttribute { root, .. } => root_ids(root),
        Mutation::CloneNode { root, .. } => root_ids(root),
        Mutation::CloneNodeChildren { root, new_ids } => root_ids(root) + new_ids@,
        Mutation::FirstChild => seq![],
        Mutation::NextSibling => seq![],
        Mutation::ParentNode => seq![],
        Mutation::StoreWithId { id } => seq![id],
        Mutation::SetLastNode { id } => seq![id],
    }
}

pub open spec fn opcode(m: Mutation<'_>) -> u8 {
    match m {
        Mutation::AppendChildren { .. } => APPEND_CHILDREN,
        Mutation::ReplaceWith { .. } => REPLACE_WITH,
        Mutation::InsertAfter { .. } => INSERT_AFTER,
        Mutation::InsertBefore { .. } => INSERT_BEFORE,
        Mutation::Remove { .. } => REMOVE,
        Mutation::CreateTextNode { .. } => CREATE_TEXT_NODE,
        Mutation::CreateElement { .. } => CREATE_ELEMENT,
        Mutation::CreatePlaceholder { .. } => CREATE_PLACEHOLDER,
        Mutation::NewEventListener { .. } => NEW_EVENT_LISTENER,
        Mutation::RemoveEventListener { .. } => REMOVE_EVENT_LISTENER,
        Mutation::SetText { .. } => SET_TEXT,
        Mutation::SetAttribute { .. } => SET_ATTRIBUTE,
        Mutation::RemoveAttribute { .. } => REMOVE_ATTRIBUTE,
        Mutation::CloneNode { .. } => CLONE_NODE,
        Mutation::CloneNodeChildren { .. } => CLONE_NODE_CHILDREN,
        Mutation::FirstChild => FIRST_CHILD,
        Mutation::NextSibling => NEXT_SIBLING,
        Mutation::ParentNode => PARENT_NODE,
        Mutation::StoreWithId { .. } => STORE_WITH_ID,
        Mutation::SetLastNode { .. } => SET_LAST_NODE,
    }
}

/// The bytes that follow a mutation's opcode when identifiers are `w` bytes wide.
pub open spec fn operands(m: Mutation<'_>, w: nat) -> Seq<u8> {
    match m {
        Mutation::AppendChildren { root, children } => maybe_id_bytes(root, w) + le_bytes(
            children@.len(),
            4,
        ) + ids_bytes(children@, w),
        Mutation::ReplaceWith { root, nodes } => maybe_id_bytes(root, w) + le_bytes(
            nodes@.len(),
            4,
        ) + ids_bytes(nodes@, w),
        Mutation::InsertAfter { root, nodes } => maybe_id_bytes(root, w) + le_bytes(
            nodes@.len(),
            4,
        ) + ids_bytes(nodes@, w),
        Mutation::InsertBefore { root, nodes } => maybe_id_bytes(root, w) + le_bytes(
            nodes@.len(),
            4,
        ) + ids_bytes(nodes@, w),
        Mutation::Remove { root } => maybe_id_bytes(root, w),
        Mutation::CreateTextNode { text, root } => maybe_id_bytes(root, w) + str_bytes(
            text.spec_bytes(),
        ),
        Mutation::CreateElement { tag, root, ns, child_count } => maybe_id_bytes(root, w)
            + str_bytes(tag.spec_bytes()) + ns_bytes(ns) + le_bytes(child_count as nat, 4),
        Mutation::CreatePlaceholder { root } => maybe_id_bytes(root, w),
        Mutation::NewEventListener { name, root, bubbles } => maybe_id_bytes(root, w)
            + str_bytes(name.spec_bytes()) + seq![flag(bubbles)],
        Mutation::RemoveEventListener { root, name, bubbles } => maybe_id_bytes(root, w)
            + str_bytes(name.spec_bytes()) + seq![flag(bubbles)],
        Mutation::SetText { root, text } => maybe_id_bytes(root, w) + str_bytes(
            text.spec_bytes(),
        ),
        Mutation::SetAttribute { root, field, value, ns } => maybe_id_bytes(root, w) + str_bytes(
            field.spec_bytes(),
        ) + ns_bytes(ns) + str_bytes(value.spec_bytes()),
        Mutation::RemoveAttribute { root, field, ns } => maybe_id_bytes(root, w) + str_bytes(
            field.spec_bytes(),
        ) + ns_bytes(ns),
        Mutation::CloneNode { root, new_id } => maybe_id_bytes(root, w) + le_bytes(
            new_id as nat,
            8,
        ),
        Mutation::CloneNodeChildren { root, new_ids } => maybe_id_bytes(root, w)
            + present_ids_bytes(new_ids@, w),
        Mutation::FirstChild => seq![],
        Mutation::NextSibling => seq![],
        Mutation::ParentNode => seq![],
        Mutation::StoreWithId { id } => maybe_id_bytes(Some(id), w),
        Mutation::SetLastNode { id } => maybe_id_bytes(Some(id), w),
    }
}

/// Whether every string of a mutation fits its length prefix and every
/// identifier list its count.
pub open spec fn encodable(m: Mutation<'_>) -> bool {
    match m {
        Mutation::AppendChildren { children, .. } => children@.len() <= u32::MAX,
        Mutation::ReplaceWith { nodes, .. } => nodes@.len() <= u32::MAX,
        Mutation::InsertAfter { nodes, .. } => nodes@.len() <= u32::MAX,
        Mutation::InsertBefore { nodes, .. } => nodes@.len() <= u32::MAX,
        Mutation::CreateTextNode { text, .. } => str_fits(text),
        Mutation::CreateElement { tag, ns, .. } => str_fits(tag) && ns_fits(ns),
        Mutation::NewEventListener { name, .. } => str_fits(name),
        Mutation::RemoveEventListener { name, .. } => str_fits(name),
        Mutation::SetText { text, .. } => str_fits(text),
        Mutation::SetAttribute { field, value, ns, .. } => str_fits(field) && str_fits(value)
            && ns_fits(ns),
        Mutation::RemoveAttribute { field, ns, .. } => str_fits(field) && ns_fits(ns),
        _ => true,
    }
}

/// The bytes one mutation appends at width `w`: the width changes its
/// identifiers call for, its opcode, then its operands at the new width.
pub open spec fn record(w: nat, m: Mutation<'_>) -> Seq<u8> {
    upgrade_codes(w, checked_ids(m)) + seq![opcode(m)] + operands(
        m,
        width_after(w, checked_ids(m)),
    )
}

/// The width reached after encoding `ms` in order from width `w`.
pub open spec fn width_reached(w: nat, ms: Seq<Mutation<'_>>) -> nat
    decreases ms.len(),
{
    if ms.len() == 0 {
        w
    } else {
        width_after(width_reached(w, ms.drop_last()), checked_ids(ms.last()))
    }
}

/// The bytes that encoding `ms` in order from width `w` appends.
pub open spec fn stream(w: nat, ms: Seq<Mutation<'_>>) -> Seq<u8>
    decreases ms.len(),
{
    if ms.len() == 0 {
        seq![]
    } else {
        stream(w, ms.drop_last()) + record(width_reached(w, ms.drop_last()), ms.last())
    }
}

/// Encoding two runs of mutations one after the other, in one batch or split
/// across a flush (which keeps the width), gives the first run's bytes and
/// then the second run's bytes encoded from the width the first one reached.
pub proof fn lemma_stream_concat(w: nat, a: Seq<Mutation<'_>>, b: Seq<Mutation<'_>>)
    ensures
        stream(w, a + b) == stream(w, a) + stream(width_reached(w, a), b),
        width_reached(w, a + b) == width_reached(width_reached(w, a), b),
    decreases b.len(),
{
    if b.len() == 0 {
        assert(a + b =~= a);
    } else {
        lemma_stream_concat(w, a, b.drop_last());
        assert((a + b).drop_last() =~= a + b.drop_last());
        assert((a + b).last() == b.last());
    }
}

/// Whether a mutation creates, moves or removes nodes.
pub open spec fn structural(m: Mutation<'_>) -> bool {
    match m {
        Mutation::AppendChildren { .. } | Mutation::ReplaceWith { .. } | Mutation::InsertAfter {
            ..
        } | Mutation::InsertBefore { .. } | Mutation::Remove { .. } | Mutation::CreateTextNode {
            ..
        } | Mutation::CreateElement { .. } | Mutation::CreatePlaceholder { .. } => true,
        _ => false,
    }
}

fn is_structural(m: &Mutation<'_>) -> (r: bool)
    ensures
        r == structural(*m),
{
    match m {
        Mutation::AppendChildren { .. } | Mutation::ReplaceWith { .. } | Mutation::InsertAfter {
            ..
        } | Mutation::InsertBefore { .. } | Mutation::Remove { .. } | Mutation::CreateTextNode {
            ..
        } | Mutation::CreateElement { .. } | Mutation::CreatePlaceholder { .. } => true,
        _ => false,
    }
}

impl Interpreter {
    /// Encodes one mutation through the method of its kind.
    pub fn apply(&mut self, m: &Mutation<'_>)
        requires
            old(self).wf(),
            encodable(*m),
        ensures
            final(self).wf(),
            final(self).width() == width_after(old(self).width(), checked_ids(*m)),
            final(self).buffer() == old(self).buffer() + record(old(self).width(), *m),
    {
        if is_structural(m) {
            self.apply_structural(m);
        } else {
            self.apply_content(m);
        }
    }

    #[verifier::rlimit(60)]
    fn apply_structural(&mut self, m: &Mutation<'_>)
        requires
            old(self).wf(),
            encodable(*m),
            structural(*m),
        ensures
            final(self).wf(),
            final(self).width() == width_after(old(self).width(), checked_ids(*m)),
            final(self).buffer() == old(self).buffer() + record(old(self).width(), *m),
    {
        match *m {
            Mutation::AppendChildren { root, children } => {
                self.move_nodes(APPEND_CHILDREN, root, children);
                assert(self.buffer() =~= old(self).buffer() + record(old(self).width(), *m));
            },
            Mutation::ReplaceWith { root, nodes } => {
                self.move_nodes(REPLACE_WITH, root, nodes);
                assert(self.buffer() =~= old(self).buffer() + record(old(self).width(), *m));
            },
            Mutation::InsertAfter { root, nodes } => {
                self.move_nodes(INSERT_AFTER, root, nodes);
                assert(self.buffer() =~= old(self).buffer() + record(old(self).width(), *m));
            },
            Mutation::InsertBefore { root, nodes } => {
                self.move_nodes(INSERT_BEFORE, root, nodes);
                assert(self.buffer() =~= old(self).buffer() + record(old(self).width(), *m));
            },
            Mutation::Remove { root } => {
                self.Remove(root);
                assert(self.buffer() =~= old(self).buffer() + record(old(self).width(), *m));
            },
            Mutation::CreateTextNode { text, root } => {
                self.CreateTextNode(text, root);
                assert(self.buffer() =~= old(self).buffer() + record(old(self).width(), *m));
            },
            Mutation::CreateElement { tag, root, ns: Some(n), child_count } => {
                self.CreateElementNs(tag, root, n, child_count);
                assert(self.buffer() =~= old(self).buffer() + record(old(self).width(), *m));
            },
            Mutation::CreateElement { tag, root, ns: None, child_count } => {
                self.CreateElement(tag, root, child_count);
                assert(self.buffer() =~= old(self).buffer() + record(old(self).width(), *m));
            },
            Mutation::CreatePlaceholder { root } => {
                self.CreatePlaceholder(root);
                assert(self.buffer() =~= old(self).buffer() + record(old(self).width(), *m));
            },
            _ => {},
        }
    }

    #[verifier::rlimit(60)]
    fn apply_content(&mut self, m: &Mutation<'_>)
        requires
            old(self).wf(),
            encodable(*m),
            !structural(*m),
        ensures
            final(self).wf(),
            final(self).width() == width_after(old(self).width(), checked_ids(*m)),
            final(self).buffer() == old(self).buffer() + record(old(self).width(), *m),
    {
        match *m {
            Mutation::NewEventListener { name, root, bubbles } => {
                self.NewEventListener(name, root, bubbles);
                assert(self.buffer() =~= old(self).buffer() + record(old(self).width(), *m));
            },
            Mutation::RemoveEventListener { root, name, bubbles } => {
                self.RemoveEventListener(root, name, bubbles);
                assert(self.buffer() =~= old(self).buffer() + record(old(self).width(), *m));
            },
            Mutation::SetText { root, text } => {
                self.SetText(root, text);
                assert(self.buffer() =~= old(self).buffer() + record(old(self).width(), *m));
            },
            Mutation::SetAttribute { root, field, value, ns } => {
                self.SetAttribute(root, field, value, ns);
                assert(self.buffer() =~= old(self).buffer() + record(old(self).width(), *m));
            },
            Mutation::RemoveAttribute { root, field, ns } => {
                self.RemoveAttribute(root, field, ns);
                assert(self.buffer() =~= old(self).buffer() + record(old(self).width(), *m));
            },
            Mutation::CloneNode { root, new_id } => {
                self.CloneNode(root, new_id);
                assert(self.buffer() =~= old(self).buffer() + record(old(self).width(), *m));
            },
            Mutation::CloneNodeChildren { root, new_ids } => {
                self.clone_children(root, new_ids);
                assert(self.buffer() =~= old(self).buffer() + record(old(self).width(), *m));
            },
            Mutation::FirstChild => {
                self.FirstChild();
                assert(self.buffer() =~= old(self).buffer() + record(old(self).width(), *m));
            },
            Mutation::NextSibling => {
                self.NextSibling();
                assert(self.buffer() =~= old(self).buffer() + record(old(self).width(), *m));
            },
            Mutation::ParentNode => {
                self.ParentNode();
                assert(self.buffer() =~= old(self).buffer() + record(old(self).width(), *m));
            },
            Mutation::StoreWithId { id } => {
                self.StoreWithId(id);
                assert(self.buffer() =~= old(self).buffer() + record(old(self).width(), *m));
            },
            Mutation::SetLastNode { id } => {
                self.SetLastNode(id);
                assert(self.buffer() =~= old(self).buffer() + record(old(self).width(), *m));
            },
            _ => {},
        }
    }
}

/// Encodes `ops` with a fresh encoder and returns the finished batch. The
/// batch is a function of the operations alone: `stream(1, ops)` followed by
/// the stop code, so encoding the same operations twice gives the same bytes.
pub fn encode_batch(ops: &[Mutation<'_>]) -> (batch: Vec<u8>)
    requires
        forall|i: int| 0 <= i < ops@.len() ==> encodable(#[trigger] ops@[i]),
    ensures
        batch@ == stream(1, ops@).push(STOP),
{
    let mut e = Interpreter::new();
    let mut i: usize = 0;
    assert(ops@.take(0) =~= Seq::<Mutation<'_>>::empty());
    while i < ops.len()
        invariant
            i <= ops@.len(),
            forall|k: int| 0 <= k < ops@.len() ==> encodable(#[trigger] ops@[k]),
            e.wf(),
            e.buffer() == stream(1, ops@.take(i as int)),
            e.width() == width_reached(1, ops@.take(i as int)),
        decreases ops@.len() - i,
    {
        e.apply(&ops[i]);
        assert(ops@.take(i + 1).drop_last() =~= ops@.take(i as int));
        i = i + 1;
    }
    assert(ops@.take(ops@.len() as int) =~= ops@);
    e.flush()
}

} // verus!
