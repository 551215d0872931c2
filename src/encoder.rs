//! The sending side of the mutation protocol: one method per mutation kind,
//! each appending an opcode record to a byte buffer, with node identifiers
//! written at the narrowest width that has served every identifier so far.
use vstd::prelude::*;
use vstd::string::StringSliceAdditionalSpecFns;

verus! {

pub const APPEND_CHILDREN: u8 = 0;
pub const REPLACE_WITH: u8 = 1;
pub const INSERT_AFTER: u8 = 2;
pub const INSERT_BEFORE: u8 = 3;
pub const REMOVE: u8 = 4;
pub const CREATE_TEXT_NODE: u8 = 5;
pub const CREATE_ELEMENT: u8 = 6;
pub const CREATE_PLACEHOLDER: u8 = 7;
pub const NEW_EVENT_LISTENER: u8 = 8;
pub const REMOVE_EVENT_LISTENER: u8 = 9;
pub const SET_TEXT: u8 = 10;
pub const SET_ATTRIBUTE: u8 = 11;
pub const REMOVE_ATTRIBUTE: u8 = 12;
pub const CLONE_NODE: u8 = 13;
pub const CLONE_NODE_CHILDREN: u8 = 14;
pub const FIRST_CHILD: u8 = 15;
pub const NEXT_SIBLING: u8 = 16;
pub const PARENT_NODE: u8 = 17;
pub const STORE_WITH_ID: u8 = 18;
pub const SET_LAST_NODE: u8 = 19;
pub const SET_ID_SIZE: u8 = 20;
pub const STOP: u8 = 21;

/// Buffered length above which a batch should be handed over.
pub const FLUSH_THRESHOLD: usize = 1024;

/// Longest string, in bytes, that a 16-bit length prefix can describe.
/// Longer strings are refused: every method that writes a string requires
/// that it fit, so the stream never holds a wrapped length.
pub const MAX_STR_LEN: usize = 65535;

pub open spec fn pow256(k: nat) -> nat
    decreases k,
{
    if k == 0 {
        1
    } else {
        256 * pow256((k - 1) as nat)
    }
}

/// Number of low-order bytes needed to write `v`: the smallest count such
/// that every higher byte is zero, and never less than one.
pub open spec fn id_width(v: nat) -> nat
    decreases v,
{
    if v < 256 {
        1
    } else {
        1 + id_width(v / 256)
    }
}

/// The `n` lowest bytes of `v`, least significant first.
pub open spec fn le_bytes(v: nat, n: nat) -> Seq<u8>
    decreases n,
{
    if n == 0 {
        seq![]
    } else {
        seq![(v % 256) as u8] + le_bytes(v / 256, (n - 1) as nat)
    }
}

/// The width negotiated after checking `ids` in order, starting from `w`.
pub open spec fn width_after(w: nat, ids: Seq<u64>) -> nat
    decreases ids.len(),
{
    if ids.len() == 0 {
        w
    } else {
        let prev = width_after(w, ids.drop_last());
        let need = id_width(ids.last() as nat);
        if need > prev {
            need
        } else {
            prev
        }
    }
}

/// The width-change control codes emitted while checking `ids` in order,
/// starting from width `w`: one code each time an identifier needs more.
pub open spec fn upgrade_codes(w: nat, ids: Seq<u64>) -> Seq<u8>
    decreases ids.len(),
{
    if ids.len() == 0 {
        seq![]
    } else {
        let prev = width_after(w, ids.drop_last());
        let need = id_width(ids.last() as nat);
        upgrade_codes(w, ids.drop_last()) + if need > prev {
            seq![SET_ID_SIZE, need as u8]
        } else {
            seq![]
        }
    }
}

pub open spec fn root_ids(root: Option<u64>) -> Seq<u64> {
    match root {
        Some(r) => seq![r],
        None => seq![],
    }
}

/// A node reference: absent (the cursor), or present with its identifier.
pub open spec fn maybe_id_bytes(root: Option<u64>, w: nat) -> Seq<u8> {
    match root {
        Some(r) => seq![1u8] + le_bytes(r as nat, w),
        None => seq![0u8],
    }
}

/// Identifiers written one after the other at width `w`.
pub open spec fn ids_bytes(ids: Seq<u64>, w: nat) -> Seq<u8>
    decreases ids.len(),
{
    if ids.len() == 0 {
        seq![]
    } else {
        ids_bytes(ids.drop_last(), w) + le_bytes(ids.last() as nat, w)
    }
}

/// Identifiers written one after the other as present node references.
pub open spec fn present_ids_bytes(ids: Seq<u64>, w: nat) -> Seq<u8>
    decreases ids.len(),
{
    if ids.len() == 0 {
        seq![]
    } else {
        present_ids_bytes(ids.drop_last(), w) + maybe_id_bytes(Some(ids.last()), w)
    }
}

/// A byte string with its 16-bit length prefix.
pub open spec fn str_bytes(s: Seq<u8>) -> Seq<u8> {
    le_bytes(s.len(), 2) + s
}

/// An optional namespace: a flag byte, then the string when present.
pub open spec fn ns_bytes(ns: Option<&str>) -> Seq<u8> {
    match ns {
        Some(n) => seq![1u8] + str_bytes(n.spec_bytes()),
        None => seq![0u8],
    }
}

pub open spec fn flag(b: bool) -> u8 {
    if b {
        1
    } else {
        0
    }
}

pub open spec fn str_fits(s: &str) -> bool {
    s.spec_bytes().len() <= MAX_STR_LEN
}

pub open spec fn ns_fits(ns: Option<&str>) -> bool {
    match ns {
        Some(n) => str_fits(n),
        None => true,
    }
}

proof fn lemma_pow256_pos(k: nat)
    ensures
        pow256(k) >= 1,
    decreases k,
{
    if k > 0 {
        lemma_pow256_pos((k - 1) as nat);
    }
}

proof fn lemma_pow256_mono(j: nat, k: nat)
    requires
        j <= k,
    ensures
        pow256(j) <= pow256(k),
    decreases k,
{
    if j < k {
        lemma_pow256_mono(j, (k - 1) as nat);
        lemma_pow256_pos((k - 1) as nat);
    }
}

/// An identifier fits in the width it asks for.
proof fn lemma_id_width_fits(v: nat)
    ensures
        v < pow256(id_width(v)),
        id_width(v) >= 1,
    decreases v,
{
    assert(pow256(1) == 256 * pow256(0));
    if v >= 256 {
        lemma_id_width_fits(v / 256);
        let k = id_width(v / 256);
        assert(v / 256 < pow256(k));
        assert(pow256(k + 1) == 256 * pow256(k));
        assert(v < 256 * pow256(k)) by (nonlinear_arith)
            requires
                v / 256 < pow256(k),
        ;
    }
}

/// A value below `256^k` needs at most `k` bytes.
proof fn lemma_id_width_bound(v: nat, k: nat)
    requires
        v < pow256(k),
        k >= 1,
    ensures
        id_width(v) <= k,
    decreases k,
{
    if v >= 256 {
        assert(k >= 2) by {
            if k == 1 {
                assert(pow256(1) == 256 * pow256(0));
            }
        }
        let k1 = (k - 1) as nat;
        assert(pow256(k) == 256 * pow256(k1));
        assert(v / 256 < pow256(k1)) by (nonlinear_arith)
            requires
                v < 256 * pow256(k1),
        ;
        lemma_id_width_bound(v / 256, k1);
    }
}

proof fn lemma_u64_width(v: u64)
    ensures
        1 <= id_width(v as nat) <= 8,
{
    reveal_with_fuel(pow256, 9);
    assert(pow256(8) == 0x1_0000_0000_0000_0000);
    lemma_id_width_bound(v as nat, 8);
    lemma_id_width_fits(v as nat);
}

/// Checking one more identifier extends the codes and the width step by step.
proof fn lemma_negotiate_push(w: nat, ids: Seq<u64>, x: u64)
    ensures
        width_after(w, ids.push(x)) == width_after(width_after(w, ids), seq![x]),
        upgrade_codes(w, ids.push(x)) == upgrade_codes(w, ids) + upgrade_codes(
            width_after(w, ids),
            seq![x],
        ),
{
    assert(ids.push(x).drop_last() =~= ids);
    assert(seq![x].drop_last() =~= Seq::<u64>::empty());
    reveal_with_fuel(width_after, 2);
    reveal_with_fuel(upgrade_codes, 2);
    assert(upgrade_codes(w, ids.push(x)) =~= upgrade_codes(w, ids) + upgrade_codes(
        width_after(w, ids),
        seq![x],
    ));
}

proof fn lemma_ids_bytes_push(ids: Seq<u64>, x: u64, w: nat)
    ensures
        ids_bytes(ids.push(x), w) == ids_bytes(ids, w) + le_bytes(x as nat, w),
        present_ids_bytes(ids.push(x), w) == present_ids_bytes(ids, w) + maybe_id_bytes(
            Some(x),
            w,
        ),
{
    assert(ids.push(x).drop_last() =~= ids);
}

/// Every identifier checked asks for no more than the width reached, and the
/// width reached is never below the starting width.
proof fn lemma_width_covers(w: nat, ids: Seq<u64>)
    ensures
        w <= width_after(w, ids),
        forall|i: int| 0 <= i < ids.len() ==> id_width(#[trigger] ids[i] as nat) <= width_after(w, ids),
    decreases ids.len(),
{
    if ids.len() > 0 {
        let pre = ids.drop_last();
        lemma_width_covers(w, pre);
        assert forall|i: int| 0 <= i < ids.len() implies id_width(#[trigger] ids[i] as nat)
            <= width_after(w, ids) by {
            if i < ids.len() - 1 {
                assert(ids[i] == pre[i]);
            }
        }
    }
}

/// Width negotiation never narrows: checking more identifiers never lowers the
/// width, the width never falls below one byte, and every identifier checked
/// so far can be written in the width reached.
pub proof fn lemma_width_monotone(w: nat, ids: Seq<u64>, j: int, k: int)
    requires
        1 <= w,
        0 <= j <= k <= ids.len(),
    ensures
        w <= width_after(w, ids.take(j)) <= width_after(w, ids.take(k)),
        1 <= width_after(w, ids),
        forall|i: int| 0 <= i < ids.len() ==> (#[trigger] ids[i] as nat) < pow256(width_after(w, ids)),
    decreases k - j,
{
    lemma_width_covers(w, ids.take(j));
    lemma_width_covers(w, ids);
    if j < k {
        lemma_width_monotone(w, ids, j, k - 1);
        assert(ids.take(k).drop_last() =~= ids.take(k - 1));
    }
    assert forall|i: int| 0 <= i < ids.len() implies (#[trigger] ids[i] as nat) < pow256(
        width_after(w, ids),
    ) by {
        lemma_id_width_fits(ids[i] as nat);
        lemma_pow256_mono(id_width(ids[i] as nat), width_after(w, ids));
    }
}

/// A well-formed encoder's identifiers are between one and eight bytes wide.
pub proof fn lemma_wf_width(e: Interpreter)
    requires
        e.wf(),
    ensures
        1 <= e.width() <= 8,
{
}

/// A batch that has just been handed over does not ask to be flushed, and
/// handing it over keeps the negotiated width.
pub proof fn lemma_flushed_below_threshold(before: Interpreter, after: Interpreter)
    requires
        Interpreter::flushed(before, after),
    ensures
        !after.needs_flush(),
        after.width() == before.width(),
{
}

/// A fresh session starts with one-byte identifiers and nothing to flush.
pub proof fn lemma_fresh_session(e: Interpreter)
    requires
        e.buffer() == Seq::<u8>::empty(),
        e.width() == 1,
    ensures
        !e.needs_flush(),
        width_after(e.width(), seq![0u64]) == 1,
        upgrade_codes(e.width(), seq![0u64]) == Seq::<u8>::empty(),
{
    assert(seq![0u64].drop_last() =~= Seq::<u64>::empty());
    reveal_with_fuel(width_after, 2);
    reveal_with_fuel(upgrade_codes, 2);
}

/// Appends the `n` lowest bytes of `v`, least significant first.
fn push_le(buf: &mut Vec<u8>, v: u64, n: u8)
    ensures
        final(buf)@ == old(buf)@ + le_bytes(v as nat, n as nat),
{
    let ghost start = old(buf)@;
    let mut rest: u64 = v;
    let mut k: u8 = 0;
    while k < n
        invariant
            k <= n,
            buf@ + le_bytes(rest as nat, (n - k) as nat) =~= start + le_bytes(v as nat, n as nat),
        decreases n - k,
    {
        let ghost before = buf@;
        buf.push((rest % 256) as u8);
        proof {
            let m = (n - k) as nat;
            assert(le_bytes(rest as nat, m) == seq![(rest as nat % 256) as u8] + le_bytes(
                rest as nat / 256,
                (m - 1) as nat,
            ));
            assert(buf@ + le_bytes((rest / 256) as nat, (m - 1) as nat) =~= before + le_bytes(
                rest as nat,
                m,
            ));
        }
        rest = rest / 256;
        k = k + 1;
    }
}

/// Appends the bytes of `s` after their 16-bit length prefix.
fn push_str_bytes(buf: &mut Vec<u8>, s: &str)
    requires
        str_fits(s),
    ensures
        final(buf)@ == old(buf)@ + str_bytes(s.spec_bytes()),
{
    let bytes = s.as_bytes();
    let len = s.len();
    push_le(buf, len as u64, 2);
    let ghost mid = buf@;
    let mut i: usize = 0;
    while i < bytes.len()
        invariant
            i <= bytes@.len(),
            bytes@ == s.spec_bytes(),
            buf@ == mid + bytes@.subrange(0, i as int),
        decreases bytes@.len() - i,
    {
        buf.push(bytes[i]);
        assert(bytes@.subrange(0, i + 1) =~= bytes@.subrange(0, i as int).push(bytes@[i as int]));
        i = i + 1;
    }
    assert(bytes@.subrange(0, bytes@.len() as int) =~= bytes@);
}

/// The sending-side encoder: the batch being built and the identifier
/// width negotiated with the receiver.
pub struct Interpreter {
    msg: Vec<u8>,
    id_size: u8,
}

#[allow(non_snake_case)]
impl Interpreter {
    /// The bytes buffered for the current batch.
    pub closed spec fn buffer(&self) -> Seq<u8> {
        self.msg@
    }

    /// The identifier width, in bytes, negotiated so far.
    pub closed spec fn width(&self) -> nat {
        self.id_size as nat
    }

    pub closed spec fn wf(&self) -> bool {
        1 <= self.id_size <= 8
    }

    /// Whether the buffered batch is long enough to be handed over.
    pub open spec fn needs_flush(&self) -> bool {
        self.buffer().len() > FLUSH_THRESHOLD
    }

    /// `after` is `before` once its batch has been handed over.
    pub open spec fn flushed(before: Interpreter, after: Interpreter) -> bool {
        &&& after.wf()
        &&& after.buffer() == Seq::<u8>::empty()
        &&& after.width() == before.width()
    }

    /// A fresh session: nothing buffered, identifiers one byte wide.
    pub fn new() -> (r: Interpreter)
        ensures
            r.wf(),
            r.buffer() == Seq::<u8>::empty(),
            r.width() == 1,
    {
        Interpreter { msg: Vec::new(), id_size: 1 }
    }

    fn check_id(&mut self, id: u64)
        requires
            old(self).wf(),
        ensures
            final(self).wf(),
            final(self).width() == width_after(old(self).width(), seq![id]),
            final(self).buffer() == old(self).buffer() + upgrade_codes(
                old(self).width(),
                seq![id],
            ),
    {
        let mut rest: u64 = id;
        let mut byte_size: u8 = 1;
        proof {
            lemma_u64_width(id);
        }
        while rest >= 256
            invariant
                byte_size as nat + id_width(rest as nat) == id_width(id as nat) + 1,
                id_width(id as nat) <= 8,
            decreases rest,
        {
            rest = rest / 256;
            byte_size = byte_size + 1;
        }
        proof {
            assert(seq![id].drop_last() =~= Seq::<u64>::empty());
            assert(seq![id].last() == id);
            reveal_with_fuel(width_after, 2);
            reveal_with_fuel(upgrade_codes, 2);
        }
        if byte_size > self.id_size {
            self.set_byte_size(byte_size);
            assert(self.msg@ =~= old(self).msg@ + upgrade_codes(old(self).width(), seq![id]));
        } else {
            assert(self.msg@ =~= old(self).msg@ + upgrade_codes(old(self).width(), seq![id]));
        }
    }

    fn set_byte_size(&mut self, byte_size: u8)
        requires
            1 <= byte_size <= 8,
        ensures
            final(self).id_size == byte_size,
            final(self).msg@ == old(self).msg@ + seq![SET_ID_SIZE, byte_size],
    {
        self.id_size = byte_size;
        self.msg.push(SET_ID_SIZE);
        self.msg.push(byte_size);
        assert(self.msg@ =~= old(self).msg@ + seq![SET_ID_SIZE, byte_size]);
    }

    /// Checks the optional root, then each of `ids`, in that order.
    #[verifier::rlimit(40)]
    fn check_ids(&mut self, root: Option<u64>, ids: &[u64])
        requires
            old(self).wf(),
        ensures
            final(self).wf(),
            final(self).width() == width_after(old(self).width(), root_ids(root) + ids@),
            final(self).buffer() == old(self).buffer() + upgrade_codes(
                old(self).width(),
                root_ids(root) + ids@,
            ),
    {
        let ghost w0 = self.width();
        let ghost b0 = self.buffer();
        if let Some(r) = root {
            self.check_id(r);
            assert(seq![r] =~= Seq::<u64>::empty().push(r));
        }
        proof {
            reveal_with_fuel(width_after, 1);
            reveal_with_fuel(upgrade_codes, 1);
            assert(root_ids(root) + ids@.subrange(0, 0) =~= root_ids(root));
        }
        let mut i: usize = 0;
        while i < ids.len()
            invariant
                i <= ids@.len(),
                self.wf(),
                self.width() == width_after(w0, root_ids(root) + ids@.subrange(0, i as int)),
                self.buffer() == b0 + upgrade_codes(
                    w0,
                    root_ids(root) + ids@.subrange(0, i as int),
                ),
            decreases ids@.len() - i,
        {
            let ghost pre = root_ids(root) + ids@.subrange(0, i as int);
            let ghost mid = self.buffer();
            self.check_id(ids[i]);
            proof {
                assert(root_ids(root) + ids@.subrange(0, i + 1) =~= pre.push(ids@[i as int]));
                lemma_negotiate_push(w0, pre, ids@[i as int]);
            }
            i = i + 1;
        }
        assert(ids@.subrange(0, ids@.len() as int) =~= ids@);
    }

    /// Checks the optional root alone.
    fn check_root(&mut self, root: Option<u64>)
        requires
            old(self).wf(),
        ensures
            final(self).wf(),
            final(self).width() == width_after(old(self).width(), root_ids(root)),
            final(self).buffer() == old(self).buffer() + upgrade_codes(
                old(self).width(),
                root_ids(root),
            ),
    {
        if let Some(r) = root {
            self.check_id(r);
        } else {
            assert(self.msg@ =~= old(self).msg@ + upgrade_codes(old(self).width(), root_ids(root)));
        }
    }

    fn encode_id(&mut self, id: u64)
        ensures
            final(self).id_size == old(self).id_size,
            final(self).msg@ == old(self).msg@ + le_bytes(id as nat, old(self).id_size as nat),
    {
        push_le(&mut self.msg, id, self.id_size);
    }

    fn encode_maybe_id(&mut self, id: Option<u64>)
        ensures
            final(self).id_size == old(self).id_size,
            final(self).msg@ == old(self).msg@ + maybe_id_bytes(id, old(self).id_size as nat),
    {
        match id {
            Some(id) => {
                self.msg.push(1);
                self.encode_id(id);
                assert(self.msg@ =~= old(self).msg@ + maybe_id_bytes(
                    Some(id),
                    old(self).id_size as nat,
                ));
            },
            None => {
                self.msg.push(0);
                assert(self.msg@ =~= old(self).msg@ + maybe_id_bytes(
                    None,
                    old(self).id_size as nat,
                ));
            },
        }
    }

    fn encode_str(&mut self, string: &str)
        requires
            str_fits(string),
        ensures
            final(self).id_size == old(self).id_size,
            final(self).msg@ == old(self).msg@ + str_bytes(string.spec_bytes()),
    {
        push_str_bytes(&mut self.msg, string);
    }

    /// Writes an opcode followed by its optional node reference.
    fn open_record(&mut self, op: u8, root: Option<u64>)
        ensures
            final(self).id_size == old(self).id_size,
            final(self).msg@ == old(self).msg@ + seq![op] + maybe_id_bytes(
                root,
                old(self).id_size as nat,
            ),
    {
        self.msg.push(op);
        self.encode_maybe_id(root);
        assert(self.msg@ =~= old(self).msg@ + seq![op] + maybe_id_bytes(
            root,
            old(self).id_size as nat,
        ));
    }

    /// Writes one move record: opcode, target, count, then the moved identifiers.
    #[verifier::rlimit(40)]
    pub(crate) fn move_nodes(&mut self, op: u8, root: Option<u64>, nodes: &[u64])
        requires
            old(self).wf(),
            nodes@.len() <= u32::MAX,
        ensures
            final(self).wf(),
            final(self).width() == width_after(old(self).width(), root_ids(root) + nodes@),
            final(self).buffer() == old(self).buffer() + upgrade_codes(
                old(self).width(),
                root_ids(root) + nodes@,
            ) + seq![op] + maybe_id_bytes(root, final(self).width()) + le_bytes(
                nodes@.len(),
                4,
            ) + ids_bytes(nodes@, final(self).width()),
    {
        self.check_ids(root, nodes);
        self.open_record(op, root);
        push_le(&mut self.msg, nodes.len() as u64, 4);
        self.encode_ids(nodes);
        assert(self.msg@ =~= old(self).buffer() + upgrade_codes(
            old(self).width(),
            root_ids(root) + nodes@,
        ) + seq![op] + maybe_id_bytes(root, self.width()) + le_bytes(nodes@.len(), 4) + ids_bytes(
            nodes@,
            self.width(),
        ));
    }

    /// Writes each of `ids` at the negotiated width.
    fn encode_ids(&mut self, ids: &[u64])
        ensures
            final(self).id_size == old(self).id_size,
            final(self).msg@ == old(self).msg@ + ids_bytes(ids@, old(self).id_size as nat),
    {
        let mut i: usize = 0;
        assert(ids@.subrange(0, 0) =~= Seq::<u64>::empty());
        while i < ids.len()
            invariant
                i <= ids@.len(),
                self.id_size == old(self).id_size,
                self.msg@ == old(self).msg@ + ids_bytes(ids@.subrange(0, i as int), self.id_size as nat),
            decreases ids@.len() - i,
        {
            let ghost pre = ids@.subrange(0, i as int);
            self.encode_id(ids[i]);
            proof {
                assert(ids@.subrange(0, i + 1) =~= pre.push(ids@[i as int]));
                lemma_ids_bytes_push(pre, ids@[i as int], self.id_size as nat);
            }
            i = i + 1;
        }
        assert(ids@.subrange(0, ids@.len() as int) =~= ids@);
    }

    /// Moves the already identified `children` relative to `root` (the cursor when absent).
    pub fn AppendChildren(&mut self, root: Option<u64>, children: Vec<u64>)
        requires
            old(self).wf(),
            children@.len() <= u32::MAX,
        ensures
            final(self).wf(),
            final(self).width() == width_after(old(self).width(), root_ids(root) + children@),
            final(self).buffer() == old(self).buffer() + upgrade_codes(
                old(self).width(),
                root_ids(root) + children@,
            ) + seq![APPEND_CHILDREN] + maybe_id_bytes(root, final(self).width()) + le_bytes(
                children@.len(),
                4,
            ) + ids_bytes(children@, final(self).width()),
    {
        self.move_nodes(APPEND_CHILDREN, root, children.as_slice());
    }

    /// Moves the already identified `nodes` relative to `root` (the cursor when absent).
    pub fn ReplaceWith(&mut self, root: Option<u64>, nodes: Vec<u64>)
        requires
            old(self).wf(),
            nodes@.len() <= u32::MAX,
        ensures
            final(self).wf(),
            final(self).width() == width_after(old(self).width(), root_ids(root) + nodes@),
            final(self).buffer() == old(self).buffer() + upgrade_codes(
                old(self).width(),
                root_ids(root) + nodes@,
            ) + seq![REPLACE_WITH] + maybe_id_bytes(root, final(self).width()) + le_bytes(
                nodes@.len(),
                4,
            ) + ids_bytes(nodes@, final(self).width()),
    {
        self.move_nodes(REPLACE_WITH, root, nodes.as_slice());
    }

    /// Moves the already identified `nodes` relative to `root` (the cursor when absent).
    pub fn InsertAfter(&mut self, root: Option<u64>, nodes: Vec<u64>)
        requires
            old(self).wf(),
            nodes@.len() <= u32::MAX,
        ensures
            final(self).wf(),
            final(self).width() == width_after(old(self).width(), root_ids(root) + nodes@),
            final(self).buffer() == old(self).buffer() + upgrade_codes(
                old(self).width(),
                root_ids(root) + nodes@,
            ) + seq![INSERT_AFTER] + maybe_id_bytes(root, final(self).width()) + le_bytes(
                nodes@.len(),
                4,
            ) + ids_bytes(nodes@, final(self).width()),
    {
        self.move_nodes(INSERT_AFTER, root, nodes.as_slice());
    }

    /// Moves the already identified `nodes` relative to `root` (the cursor when absent).
    pub fn InsertBefore(&mut self, root: Option<u64>, nodes: Vec<u64>)
        requires
            old(self).wf(),
            nodes@.len() <= u32::MAX,
        ensures
            final(self).wf(),
            final(self).width() == width_after(old(self).width(), root_ids(root) + nodes@),
            final(self).buffer() == old(self).buffer() + upgrade_codes(
                old(self).width(),
                root_ids(root) + nodes@,
            ) + seq![INSERT_BEFORE] + maybe_id_bytes(root, final(self).width()) + le_bytes(
                nodes@.len(),
                4,
            ) + ids_bytes(nodes@, final(self).width()),
    {
        self.move_nodes(INSERT_BEFORE, root, nodes.as_slice());
    }

    /// Detaches and discards `root` (the cursor when absent).
    pub fn Remove(&mut self, root: Option<u64>)
        requires
            old(self).wf(),
        ensures
            final(self).wf(),
            final(self).width() == width_after(old(self).width(), root_ids(root)),
            final(self).buffer() == old(self).buffer() + upgrade_codes(
                old(self).width(),
                root_ids(root),
            ) + seq![REMOVE] + maybe_id_bytes(root, final(self).width()),
    {
        self.check_root(root);
        self.open_record(REMOVE, root);
    }

    /// Creates a text node, stored under `root` when given, else made the cursor.
    pub fn CreateTextNode(&mut self, text: &str, root: Option<u64>)
        requires
            old(self).wf(),
            str_fits(text),
        ensures
            final(self).wf(),
            final(self).width() == width_after(old(self).width(), root_ids(root)),
            final(self).buffer() == old(self).buffer() + upgrade_codes(
                old(self).width(),
                root_ids(root),
            ) + seq![CREATE_TEXT_NODE] + maybe_id_bytes(root, final(self).width()) + str_bytes(
                text.spec_bytes(),
            ),
    {
        self.check_root(root);
        self.open_record(CREATE_TEXT_NODE, root);
        self.encode_str(text);
    }

    /// Creates an element with no namespace that will receive `children` children.
    pub fn CreateElement(&mut self, tag: &str, root: Option<u64>, children: u32)
        requires
            old(self).wf(),
            str_fits(tag),
        ensures
            final(self).wf(),
            final(self).width() == width_after(old(self).width(), root_ids(root)),
            final(self).buffer() == old(self).buffer() + upgrade_codes(
                old(self).width(),
                root_ids(root),
            ) + seq![CREATE_ELEMENT] + maybe_id_bytes(root, final(self).width()) + str_bytes(
                tag.spec_bytes(),
            ) + seq![0u8] + le_bytes(children as nat, 4),
    {
        self.check_root(root);
        self.open_record(CREATE_ELEMENT, root);
        self.encode_str(tag);
        self.msg.push(0);
        push_le(&mut self.msg, children as u64, 4);
        assert(self.msg@ =~= old(self).buffer() + upgrade_codes(old(self).width(), root_ids(root))
            + seq![CREATE_ELEMENT] + maybe_id_bytes(root, self.width()) + str_bytes(
            tag.spec_bytes(),
        ) + seq![0u8] + le_bytes(children as nat, 4));
    }

    /// Creates an element in namespace `ns` that will receive `children` children.
    pub fn CreateElementNs(&mut self, tag: &str, root: Option<u64>, ns: &str, children: u32)
        requires
            old(self).wf(),
            str_fits(tag),
            str_fits(ns),
        ensures
            final(self).wf(),
            final(self).width() == width_after(old(self).width(), root_ids(root)),
            final(self).buffer() == old(self).buffer() + upgrade_codes(
                old(self).width(),
                root_ids(root),
            ) + seq![CREATE_ELEMENT] + maybe_id_bytes(root, final(self).width()) + str_bytes(
                tag.spec_bytes(),
            ) + seq![1u8] + str_bytes(ns.spec_bytes()) + le_bytes(children as nat, 4),
    {
        self.check_root(root);
        self.open_record(CREATE_ELEMENT, root);
        self.encode_str(tag);
        self.msg.push(1);
        self.encode_str(ns);
        push_le(&mut self.msg, children as u64, 4);
        assert(self.msg@ =~= old(self).buffer() + upgrade_codes(old(self).width(), root_ids(root))
            + seq![CREATE_ELEMENT] + maybe_id_bytes(root, self.width()) + str_bytes(
            tag.spec_bytes(),
        ) + seq![1u8] + str_bytes(ns.spec_bytes()) + le_bytes(children as nat, 4));
    }

    /// Creates a placeholder node.
    pub fn CreatePlaceholder(&mut self, root: Option<u64>)
        requires
            old(self).wf(),
        ensures
            final(self).wf(),
            final(self).width() == width_after(old(self).width(), root_ids(root)),
            final(self).buffer() == old(self).buffer() + upgrade_codes(
                old(self).width(),
                root_ids(root),
            ) + seq![CREATE_PLACEHOLDER] + maybe_id_bytes(root, final(self).width()),
    {
        self.check_root(root);
        self.open_record(CREATE_PLACEHOLDER, root);
    }

    /// Registers a listener for the event `name` on `root`.
    pub fn NewEventListener(&mut self, name: &str, root: Option<u64>, bubbles: bool)
        requires
            old(self).wf(),
            str_fits(name),
        ensures
            final(self).wf(),
            final(self).width() == width_after(old(self).width(), root_ids(root)),
            final(self).buffer() == old(self).buffer() + upgrade_codes(
                old(self).width(),
                root_ids(root),
            ) + seq![NEW_EVENT_LISTENER] + maybe_id_bytes(root, final(self).width()) + str_bytes(
                name.spec_bytes(),
            ) + seq![flag(bubbles)],
    {
        self.listener(NEW_EVENT_LISTENER, root, name, bubbles);
    }

    /// Removes the listener for the event `name` from `root`.
    pub fn RemoveEventListener(&mut self, root: Option<u64>, name: &str, bubbles: bool)
        requires
            old(self).wf(),
            str_fits(name),
        ensures
            final(self).wf(),
            final(self).width() == width_after(old(self).width(), root_ids(root)),
            final(self).buffer() == old(self).buffer() + upgrade_codes(
                old(self).width(),
                root_ids(root),
            ) + seq![REMOVE_EVENT_LISTENER] + maybe_id_bytes(root, final(self).width())
                + str_bytes(name.spec_bytes()) + seq![flag(bubbles)],
    {
        self.listener(REMOVE_EVENT_LISTENER, root, name, bubbles);
    }

    fn listener(&mut self, op: u8, root: Option<u64>, name: &str, bubbles: bool)
        requires
            old(self).wf(),
            str_fits(name),
        ensures
            final(self).wf(),
            final(self).width() == width_after(old(self).width(), root_ids(root)),
            final(self).buffer() == old(self).buffer() + upgrade_codes(
                old(self).width(),
                root_ids(root),
            ) + seq![op] + maybe_id_bytes(root, final(self).width()) + str_bytes(
                name.spec_bytes(),
            ) + seq![flag(bubbles)],
    {
        self.check_root(root);
        self.open_record(op, root);
        self.encode_str(name);
        self.msg.push(if bubbles {
            1
        } else {
            0
        });
        assert(self.msg@ =~= old(self).buffer() + upgrade_codes(old(self).width(), root_ids(root))
            + seq![op] + maybe_id_bytes(root, self.width()) + str_bytes(name.spec_bytes())
            + seq![flag(bubbles)]);
    }

    /// Replaces the text content of `root`.
    pub fn SetText(&mut self, root: Option<u64>, text: &str)
        requires
            old(self).wf(),
            str_fits(text),
        ensures
            final(self).wf(),
            final(self).width() == width_after(old(self).width(), root_ids(root)),
            final(self).buffer() == old(self).buffer() + upgrade_codes(
                old(self).width(),
                root_ids(root),
            ) + seq![SET_TEXT] + maybe_id_bytes(root, final(self).width()) + str_bytes(
                text.spec_bytes(),
            ),
    {
        self.check_root(root);
        self.open_record(SET_TEXT, root);
        self.encode_str(text);
    }

    /// Sets the attribute `field`, in namespace `ns` when given, to `value`.
    pub fn SetAttribute(&mut self, root: Option<u64>, field: &str, value: &str, ns: Option<&str>)
        requires
            old(self).wf(),
            str_fits(field),
            str_fits(value),
            ns_fits(ns),
        ensures
            final(self).wf(),
            final(self).width() == width_after(old(self).width(), root_ids(root)),
            final(self).buffer() == old(self).buffer() + upgrade_codes(
                old(self).width(),
                root_ids(root),
            ) + seq![SET_ATTRIBUTE] + maybe_id_bytes(root, final(self).width()) + str_bytes(
                field.spec_bytes(),
            ) + ns_bytes(ns) + str_bytes(value.spec_bytes()),
    {
        self.check_root(root);
        self.open_record(SET_ATTRIBUTE, root);
        self.encode_str(field);
        self.encode_ns(ns);
        self.encode_str(value);
        assert(self.msg@ =~= old(self).buffer() + upgrade_codes(old(self).width(), root_ids(root))
            + seq![SET_ATTRIBUTE] + maybe_id_bytes(root, self.width()) + str_bytes(
            field.spec_bytes(),
        ) + ns_bytes(ns) + str_bytes(value.spec_bytes()));
    }

    /// Removes the attribute `field`, in namespace `ns` when given.
    pub fn RemoveAttribute(&mut self, root: Option<u64>, field: &str, ns: Option<&str>)
        requires
            old(self).wf(),
            str_fits(field),
            ns_fits(ns),
        ensures
            final(self).wf(),
            final(self).width() == width_after(old(self).width(), root_ids(root)),
            final(self).buffer() == old(self).buffer() + upgrade_codes(
                old(self).width(),
                root_ids(root),
            ) + seq![REMOVE_ATTRIBUTE] + maybe_id_bytes(root, final(self).width()) + str_bytes(
                field.spec_bytes(),
            ) + ns_bytes(ns),
    {
        self.check_root(root);
        self.open_record(REMOVE_ATTRIBUTE, root);
        self.encode_str(field);
        self.encode_ns(ns);
        assert(self.msg@ =~= old(self).buffer() + upgrade_codes(old(self).width(), root_ids(root))
            + seq![REMOVE_ATTRIBUTE] + maybe_id_bytes(root, self.width()) + str_bytes(
            field.spec_bytes(),
        ) + ns_bytes(ns));
    }

    fn encode_ns(&mut self, ns: Option<&str>)
        requires
            ns_fits(ns),
        ensures
            final(self).id_size == old(self).id_size,
            final(self).msg@ == old(self).msg@ + ns_bytes(ns),
    {
        match ns {
            Some(n) => {
                self.msg.push(1);
                self.encode_str(n);
                assert(self.msg@ =~= old(self).msg@ + ns_bytes(ns));
            },
            None => {
                self.msg.push(0);
                assert(self.msg@ =~= old(self).msg@ + ns_bytes(ns));
            },
        }
    }

    /// Clones `root` under the identifier `new_id`, written in full eight bytes.
    pub fn CloneNode(&mut self, root: Option<u64>, new_id: u64)
        requires
            old(self).wf(),
        ensures
            final(self).wf(),
            final(self).width() == width_after(old(self).width(), root_ids(root)),
            final(self).buffer() == old(self).buffer() + upgrade_codes(
                old(self).width(),
                root_ids(root),
            ) + seq![CLONE_NODE] + maybe_id_bytes(root, final(self).width()) + le_bytes(
                new_id as nat,
                8,
            ),
    {
        self.check_root(root);
        self.open_record(CLONE_NODE, root);
        push_le(&mut self.msg, new_id, 8);
        assert(self.msg@ =~= old(self).buffer() + upgrade_codes(old(self).width(), root_ids(root))
            + seq![CLONE_NODE] + maybe_id_bytes(root, self.width()) + le_bytes(new_id as nat, 8));
    }

    /// Clones the children of `root`, storing the clones under `new_ids`.
    pub fn CloneNodeChildren(&mut self, root: Option<u64>, new_ids: Vec<u64>)
        requires
            old(self).wf(),
        ensures
            final(self).wf(),
            final(self).width() == width_after(old(self).width(), root_ids(root) + new_ids@),
            final(self).buffer() == old(self).buffer() + upgrade_codes(
                old(self).width(),
                root_ids(root) + new_ids@,
            ) + seq![CLONE_NODE_CHILDREN] + maybe_id_bytes(root, final(self).width())
                + present_ids_bytes(new_ids@, final(self).width()),
    {
        self.clone_children(root, new_ids.as_slice());
    }

    #[verifier::rlimit(40)]
    pub(crate) fn clone_children(&mut self, root: Option<u64>, new_ids: &[u64])
        requires
            old(self).wf(),
        ensures
            final(self).wf(),
            final(self).width() == width_after(old(self).width(), root_ids(root) + new_ids@),
            final(self).buffer() == old(self).buffer() + upgrade_codes(
                old(self).width(),
                root_ids(root) + new_ids@,
            ) + seq![CLONE_NODE_CHILDREN] + maybe_id_bytes(root, final(self).width())
                + present_ids_bytes(new_ids@, final(self).width()),
    {
        self.check_ids(root, new_ids);
        self.open_record(CLONE_NODE_CHILDREN, root);
        self.encode_present_ids(new_ids);
        assert(self.msg@ =~= old(self).buffer() + upgrade_codes(
            old(self).width(),
            root_ids(root) + new_ids@,
        ) + seq![CLONE_NODE_CHILDREN] + maybe_id_bytes(root, self.width()) + present_ids_bytes(
            new_ids@,
            self.width(),
        ));
    }

    /// Writes each of `ids` as a present node reference.
    fn encode_present_ids(&mut self, ids: &[u64])
        ensures
            final(self).id_size == old(self).id_size,
            final(self).msg@ == old(self).msg@ + present_ids_bytes(ids@, old(self).id_size as nat),
    {
        let mut i: usize = 0;
        assert(ids@.subrange(0, 0) =~= Seq::<u64>::empty());
        while i < ids.len()
            invariant
                i <= ids@.len(),
                self.id_size == old(self).id_size,
                self.msg@ == old(self).msg@ + present_ids_bytes(
                    ids@.subrange(0, i as int),
                    self.id_size as nat,
                ),
            decreases ids@.len() - i,
        {
            let ghost pre = ids@.subrange(0, i as int);
            self.encode_maybe_id(Some(ids[i]));
            proof {
                assert(ids@.subrange(0, i + 1) =~= pre.push(ids@[i as int]));
                lemma_ids_bytes_push(pre, ids@[i as int], self.id_size as nat);
            }
            i = i + 1;
        }
        assert(ids@.subrange(0, ids@.len() as int) =~= ids@);
    }

    /// Moves the cursor to its first child.
    pub fn FirstChild(&mut self)
        ensures
            final(self).wf() == old(self).wf(),
            final(self).width() == old(self).width(),
            final(self).buffer() == old(self).buffer().push(FIRST_CHILD),
    {
        self.msg.push(FIRST_CHILD);
    }

    /// Moves the cursor to its next sibling.
    pub fn NextSibling(&mut self)
        ensures
            final(self).wf() == old(self).wf(),
            final(self).width() == old(self).width(),
            final(self).buffer() == old(self).buffer().push(NEXT_SIBLING),
    {
        self.msg.push(NEXT_SIBLING);
    }

    /// Moves the cursor to its parent.
    pub fn ParentNode(&mut self)
        ensures
            final(self).wf() == old(self).wf(),
            final(self).width() == old(self).width(),
            final(self).buffer() == old(self).buffer().push(PARENT_NODE),
    {
        self.msg.push(PARENT_NODE);
    }

    /// Stores the cursor's node under `id`.
    pub fn StoreWithId(&mut self, id: u64)
        requires
            old(self).wf(),
        ensures
            final(self).wf(),
            final(self).width() == width_after(old(self).width(), seq![id]),
            final(self).buffer() == old(self).buffer() + upgrade_codes(old(self).width(), seq![id])
                + seq![STORE_WITH_ID] + maybe_id_bytes(Some(id), final(self).width()),
    {
        self.check_id(id);
        self.open_record(STORE_WITH_ID, Some(id));
    }

    /// Makes the node stored under `id` the cursor.
    pub fn SetLastNode(&mut self, id: u64)
        requires
            old(self).wf(),
        ensures
            final(self).wf(),
            final(self).width() == width_after(old(self).width(), seq![id]),
            final(self).buffer() == old(self).buffer() + upgrade_codes(old(self).width(), seq![id])
                + seq![SET_LAST_NODE] + maybe_id_bytes(Some(id), final(self).width()),
    {
        self.check_id(id);
        self.open_record(SET_LAST_NODE, Some(id));
    }

    /// Whether the buffered batch has grown past the threshold.
    pub fn should_flush(&self) -> (r: bool)
        ensures
            r == self.needs_flush(),
    {
        self.msg.len() > FLUSH_THRESHOLD
    }

    /// Ends the batch with the stop code and hands it out, leaving the buffer
    /// empty and the negotiated width as it was.
    pub fn flush(&mut self) -> (batch: Vec<u8>)
        requires
            old(self).wf(),
        ensures
            batch@ == old(self).buffer().push(STOP),
            Self::flushed(*old(self), *final(self)),
    {
        self.msg.push(STOP);
        let mut batch: Vec<u8> = Vec::new();
        std::mem::swap(&mut self.msg, &mut batch);
        batch
    }
}

} // verus!
