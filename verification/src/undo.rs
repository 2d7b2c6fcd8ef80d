//! Undo/redo management for editor operations.
//!
//! Provides:
//! - `UndoManager` trait for abstracting undo implementations
//! - `UndoableBuffer<T>` - wraps a TextBuffer and provides undo/redo
use crate::text::{
    delete_recorded, insert_recorded, spec_delete, spec_insert, BufferInvariant, EditorRope, TextBuffer,
};
use crate::types::EditInfo;
use vstd::prelude::*;

verus! {

/// Trait for managing undo/redo operations.
///
/// Implementations must actually perform the undo/redo, not just track state.
/// For local editing, use `UndoableBuffer<T>` which wraps a TextBuffer.
pub trait UndoManager: BufferInvariant + Sized {
    /// Whether there is an edit to undo.
    spec fn spec_can_undo(&self) -> bool;

    /// Whether there is an undone edit to redo.
    spec fn spec_can_redo(&self) -> bool;

    /// Check if undo is available.
    fn can_undo(&self) -> (r: bool)
        ensures
            r == self.spec_can_undo(),
    ;

    /// Check if redo is available.
    fn can_redo(&self) -> (r: bool)
        ensures
            r == self.spec_can_redo(),
    ;

    /// Perform undo. Returns true if successful.
    fn undo(&mut self) -> (r: bool)
        requires
            old(self).inv(),
        ensures
            final(self).inv(),
            r == old(self).spec_can_undo(),
            !r ==> *final(self) == *old(self),
    ;

    /// Perform redo. Returns true if successful.
    fn redo(&mut self) -> (r: bool)
        requires
            old(self).inv(),
        ensures
            final(self).inv(),
            r == old(self).spec_can_redo(),
            !r ==> *final(self) == *old(self),
    ;

    /// Clear all undo/redo history.
    fn clear_history(&mut self)
        requires
            old(self).inv(),
        ensures
            final(self).inv(),
            !final(self).spec_can_undo(),
            !final(self).spec_can_redo(),
    ;
}

/// A recorded edit, as specifications see it.
pub struct SpecEditOp {
    /// Character position where the edit occurred
    pub pos: int,
    /// Text that was deleted
    pub deleted: Seq<char>,
    /// Text that was inserted
    pub inserted: Seq<char>,
}

/// The edit `op` can be undone on text `t`: its inserted text sits at its position.
pub open spec fn can_unapply(t: Seq<char>, op: SpecEditOp) -> bool {
    &&& 0 <= op.pos
    &&& op.pos + op.inserted.len() <= t.len()
    &&& t.subrange(op.pos, op.pos + op.inserted.len()) == op.inserted
}

/// The edit `op` can be redone on text `t`: its deleted text sits at its position.
pub open spec fn can_reapply(t: Seq<char>, op: SpecEditOp) -> bool {
    &&& 0 <= op.pos
    &&& op.pos + op.deleted.len() <= t.len()
    &&& t.subrange(op.pos, op.pos + op.deleted.len()) == op.deleted
}

/// `t` with the edit `op` undone: its inserted text replaced by its deleted text.
pub open spec fn unapply(t: Seq<char>, op: SpecEditOp) -> Seq<char> {
    t.take(op.pos) + op.deleted + t.skip(op.pos + op.inserted.len())
}

/// `t` with the edit `op` redone: its deleted text replaced by its inserted text.
pub open spec fn reapply(t: Seq<char>, op: SpecEditOp) -> Seq<char> {
    t.take(op.pos) + op.inserted + t.skip(op.pos + op.deleted.len())
}

/// Undoing the edits of `stack`, last first, starting from text `t`, never fails
/// and never produces a text longer than memory allows.
pub open spec fn undo_chain_ok(t: Seq<char>, stack: Seq<SpecEditOp>) -> bool
    decreases stack.len(),
{
    if stack.len() == 0 {
        true
    } else {
        let op = stack.last();
        &&& can_unapply(t, op)
        &&& unapply(t, op).len() <= usize::MAX
        &&& undo_chain_ok(unapply(t, op), stack.drop_last())
    }
}

/// Redoing the edits of `stack`, last first, starting from text `t`, never fails
/// and never produces a text longer than memory allows.
pub open spec fn redo_chain_ok(t: Seq<char>, stack: Seq<SpecEditOp>) -> bool
    decreases stack.len(),
{
    if stack.len() == 0 {
        true
    } else {
        let op = stack.last();
        &&& can_reapply(t, op)
        &&& reapply(t, op).len() <= usize::MAX
        &&& redo_chain_ok(reapply(t, op), stack.drop_last())
    }
}

/// The state of an undoable buffer, as specifications see it.
pub struct UndoView {
    pub text: Seq<char>,
    pub undo: Seq<SpecEditOp>,
    pub redo: Seq<SpecEditOp>,
    pub max_steps: nat,
}

/// A consistent history: every recorded edit can be undone or redone in order,
/// and the history holds at most `max_steps` edits.
pub open spec fn view_valid(v: UndoView) -> bool {
    &&& undo_chain_ok(v.text, v.undo)
    &&& redo_chain_ok(v.text, v.redo)
    &&& v.undo.len() + v.redo.len() <= v.max_steps
    &&& v.text.len() <= usize::MAX
}

/// The last `max` edits of `s`.
pub open spec fn keep_last(s: Seq<SpecEditOp>, max: nat) -> Seq<SpecEditOp> {
    if s.len() > max {
        s.skip(s.len() - max)
    } else {
        s
    }
}

/// Recording `op` after the text became `t`: the redo history is dropped and
/// only the last `max_steps` edits are kept.
pub open spec fn view_record(v: UndoView, op: SpecEditOp, t: Seq<char>) -> UndoView {
    UndoView {
        text: t,
        undo: keep_last(v.undo.push(op), v.max_steps),
        redo: Seq::empty(),
        max_steps: v.max_steps,
    }
}

/// Inserting `s` at `pos`.
pub open spec fn view_insert(v: UndoView, pos: int, s: Seq<char>) -> UndoView {
    view_record(
        v,
        SpecEditOp { pos, deleted: Seq::empty(), inserted: s },
        spec_insert(v.text, pos, s),
    )
}

/// Deleting `[start, end)`.
pub open spec fn view_delete(v: UndoView, start: int, end: int) -> UndoView {
    view_record(
        v,
        SpecEditOp { pos: start, deleted: v.text.subrange(start, end), inserted: Seq::empty() },
        spec_delete(v.text, start, end),
    )
}

/// Undoing the last edit, if any.
pub open spec fn view_undo(v: UndoView) -> UndoView {
    if v.undo.len() == 0 {
        v
    } else {
        UndoView {
            text: unapply(v.text, v.undo.last()),
            undo: v.undo.drop_last(),
            redo: v.redo.push(v.undo.last()),
            max_steps: v.max_steps,
        }
    }
}

/// Redoing the last undone edit, if any.
pub open spec fn view_redo(v: UndoView) -> UndoView {
    if v.redo.len() == 0 {
        v
    } else {
        UndoView {
            text: reapply(v.text, v.redo.last()),
            undo: v.undo.push(v.redo.last()),
            redo: v.redo.drop_last(),
            max_steps: v.max_steps,
        }
    }
}

proof fn lemma_undo_chain_drop_first(t: Seq<char>, s: Seq<SpecEditOp>)
    requires
        undo_chain_ok(t, s),
        s.len() > 0,
    ensures
        undo_chain_ok(t, s.drop_first()),
    decreases s.len(),
{
    if s.len() > 1 {
        let op = s.last();
        lemma_undo_chain_drop_first(unapply(t, op), s.drop_last());
        assert(s.drop_first().last() == op);
        assert(s.drop_first().drop_last() =~= s.drop_last().drop_first());
    }
}

proof fn lemma_undo_chain_keep_last(t: Seq<char>, s: Seq<SpecEditOp>, max: nat)
    requires
        undo_chain_ok(t, s),
    ensures
        undo_chain_ok(t, keep_last(s, max)),
    decreases s.len(),
{
    if s.len() > max {
        lemma_undo_chain_drop_first(t, s);
        lemma_undo_chain_keep_last(t, s.drop_first(), max);
        assert(keep_last(s.drop_first(), max) =~= keep_last(s, max));
    }
}

/// Undoing an edit and redoing it gives back the text.
proof fn lemma_reapply_unapply(t: Seq<char>, op: SpecEditOp)
    requires
        can_unapply(t, op),
    ensures
        can_reapply(unapply(t, op), op),
        reapply(unapply(t, op), op) == t,
{
    let u = unapply(t, op);
    assert(u.subrange(op.pos, op.pos + op.deleted.len()) =~= op.deleted);
    assert(u.take(op.pos) =~= t.take(op.pos));
    assert(u.skip(op.pos + op.deleted.len()) =~= t.skip(op.pos + op.inserted.len()));
    assert(t =~= t.take(op.pos) + t.subrange(op.pos, op.pos + op.inserted.len()) + t.skip(
        op.pos + op.inserted.len(),
    ));
}

/// Redoing an edit and undoing it gives back the text.
proof fn lemma_unapply_reapply(t: Seq<char>, op: SpecEditOp)
    requires
        can_reapply(t, op),
    ensures
        can_unapply(reapply(t, op), op),
        unapply(reapply(t, op), op) == t,
{
    let u = reapply(t, op);
    assert(u.subrange(op.pos, op.pos + op.inserted.len()) =~= op.inserted);
    assert(u.take(op.pos) =~= t.take(op.pos));
    assert(u.skip(op.pos + op.inserted.len()) =~= t.skip(op.pos + op.deleted.len()));
    assert(t =~= t.take(op.pos) + t.subrange(op.pos, op.pos + op.deleted.len()) + t.skip(
        op.pos + op.deleted.len(),
    ));
}

/// Recording an edit that turned text `v.text` into `t` keeps the history consistent.
proof fn lemma_view_record_valid(v: UndoView, op: SpecEditOp, t: Seq<char>)
    requires
        view_valid(v),
        can_unapply(t, op),
        unapply(t, op) == v.text,
        t.len() <= usize::MAX,
    ensures
        view_valid(view_record(v, op, t)),
{
    let s = v.undo.push(op);
    assert(s.last() == op);
    assert(s.drop_last() =~= v.undo);
    assert(undo_chain_ok(t, s));
    lemma_undo_chain_keep_last(t, s, v.max_steps);
}

/// Undoing keeps the history consistent.
proof fn lemma_view_undo_valid(v: UndoView)
    requires
        view_valid(v),
    ensures
        view_valid(view_undo(v)),
{
    if v.undo.len() > 0 {
        let op = v.undo.last();
        lemma_reapply_unapply(v.text, op);
        let r = v.redo.push(op);
        assert(r.last() == op);
        assert(r.drop_last() =~= v.redo);
    }
}

/// Redoing keeps the history consistent.
proof fn lemma_view_redo_valid(v: UndoView)
    requires
        view_valid(v),
    ensures
        view_valid(view_redo(v)),
{
    if v.redo.len() > 0 {
        let op = v.redo.last();
        lemma_unapply_reapply(v.text, op);
        let u = v.undo.push(op);
        assert(u.last() == op);
        assert(u.drop_last() =~= v.undo);
    }
}

/// Undoing right after an insertion gives back the text from before it
/// (when the history keeps at least one step).
pub proof fn law_undo_after_insert(v: UndoView, pos: int, s: Seq<char>)
    requires
        view_valid(v),
        v.max_steps > 0,
        0 <= pos <= v.text.len(),
    ensures
        view_undo(view_insert(v, pos, s)).text == v.text,
        view_undo(view_insert(v, pos, s)).redo.len() == 1,
{
    let t = spec_insert(v.text, pos, s);
    let op = SpecEditOp { pos, deleted: Seq::empty(), inserted: s };
    let w = view_insert(v, pos, s);
    assert(w.undo.last() == op);
    assert(unapply(t, op) =~= v.text);
}

/// Undoing right after a deletion gives back the text from before it
/// (when the history keeps at least one step).
pub proof fn law_undo_after_delete(v: UndoView, start: int, end: int)
    requires
        view_valid(v),
        v.max_steps > 0,
        0 <= start <= end <= v.text.len(),
    ensures
        view_undo(view_delete(v, start, end)).text == v.text,
{
    let t = spec_delete(v.text, start, end);
    let op = SpecEditOp { pos: start, deleted: v.text.subrange(start, end), inserted: Seq::empty() };
    let w = view_delete(v, start, end);
    assert(w.undo.last() == op);
    assert(unapply(t, op) =~= v.text);
}

/// Redo undoes an undo: the whole state comes back.
pub proof fn law_redo_after_undo(v: UndoView)
    requires
        view_valid(v),
        v.undo.len() > 0,
    ensures
        view_redo(view_undo(v)) == v,
{
    let op = v.undo.last();
    lemma_reapply_unapply(v.text, op);
    let u = view_undo(v);
    assert(u.redo.last() == op);
    assert(u.redo.drop_last() =~= v.redo);
    assert(u.undo.push(op) =~= v.undo);
}

/// Undo undoes a redo: the whole state comes back.
pub proof fn law_undo_after_redo(v: UndoView)
    requires
        view_valid(v),
        v.redo.len() > 0,
    ensures
        view_undo(view_redo(v)) == v,
{
    let op = v.redo.last();
    lemma_unapply_reapply(v.text, op);
    let u = view_redo(v);
    assert(u.undo.last() == op);
    assert(u.undo.drop_last() =~= v.undo);
    assert(u.redo.push(op) =~= v.redo);
}

/// A new edit drops the redo history and keeps at most `max_steps` undo steps.
pub proof fn law_edit_clears_redo(v: UndoView, pos: int, s: Seq<char>)
    ensures
        view_insert(v, pos, s).redo.len() == 0,
        view_insert(v, pos, s).undo.len() <= v.max_steps,
        v.undo.len() < v.max_steps ==> view_insert(v, pos, s).undo.len() == v.undo.len() + 1,
{
}

/// Every operation keeps a consistent history consistent.
pub proof fn law_operations_keep_history_valid(v: UndoView, pos: int, s: Seq<char>, end: int)
    requires
        view_valid(v),
        0 <= pos <= v.text.len(),
        v.text.len() + s.len() <= usize::MAX,
    ensures
        view_valid(view_insert(v, pos, s)),
        pos <= end <= v.text.len() ==> view_valid(view_delete(v, pos, end)),
        view_valid(view_undo(v)),
        view_valid(view_redo(v)),
{
    let t = spec_insert(v.text, pos, s);
    let op = SpecEditOp { pos, deleted: Seq::empty(), inserted: s };
    assert(t.subrange(pos, pos + s.len()) =~= s);
    assert(unapply(t, op) =~= v.text);
    lemma_view_record_valid(v, op, t);
    if pos <= end <= v.text.len() {
        let t2 = spec_delete(v.text, pos, end);
        let op2 = SpecEditOp { pos, deleted: v.text.subrange(pos, end), inserted: Seq::empty() };
        assert(t2.subrange(pos, pos) =~= Seq::<char>::empty());
        assert(unapply(t2, op2) =~= v.text);
        lemma_view_record_valid(v, op2, t2);
    }
    lemma_view_undo_valid(v);
    lemma_view_redo_valid(v);
}

/// A recorded edit operation for undo/redo.
#[derive(Debug)]
struct EditOperation {
    /// Character position where edit occurred
    pos: usize,
    /// Text that was deleted (empty for pure insertions)
    deleted: String,
    /// Text that was inserted (empty for pure deletions)
    inserted: String,
}

impl EditOperation {
    spec fn spec_op(self) -> SpecEditOp {
        SpecEditOp { pos: self.pos as int, deleted: self.deleted@, inserted: self.inserted@ }
    }
}

impl Clone for EditOperation {
    fn clone(&self) -> (r: Self)
        ensures
            r == *self,
    {
        EditOperation { pos: self.pos, deleted: self.deleted.clone(), inserted: self.inserted.clone() }
    }
}

fn clone_ops(ops: &Vec<EditOperation>) -> (r: Vec<EditOperation>)
    ensures
        r@ == ops@,
{
    let mut out: Vec<EditOperation> = Vec::new();
    let mut i: usize = 0;
    while i < ops.len()
        invariant
            i <= ops@.len(),
            out@ == ops@.take(i as int),
        decreases ops@.len() - i,
    {
        out.push(ops[i].clone());
        proof {
            assert(out@ =~= ops@.take(i + 1));
        }
        i = i + 1;
    }
    proof {
        assert(ops@.take(i as int) =~= ops@);
    }
    out
}

spec fn ops_view(v: Seq<EditOperation>) -> Seq<SpecEditOp> {
    v.map_values(|op: EditOperation| op.spec_op())
}

/// A TextBuffer wrapper that tracks edits and provides undo/redo.
///
/// This is the standard way to get undo support for local editing.
/// All mutations go through this wrapper, which records them for undo.
pub struct UndoableBuffer<T> {
    buffer: T,
    undo_stack: Vec<EditOperation>,
    redo_stack: Vec<EditOperation>,
    max_steps: usize,
}

impl<T: TextBuffer> View for UndoableBuffer<T> {
    type V = UndoView;

    closed spec fn view(&self) -> UndoView {
        UndoView {
            text: self.buffer.text(),
            undo: ops_view(self.undo_stack@),
            redo: ops_view(self.redo_stack@),
            max_steps: self.max_steps as nat,
        }
    }
}

impl<T: TextBuffer + Clone> Clone for UndoableBuffer<T> {
    /// A copy with the same history; the buffer is copied by its own `clone`.
    fn clone(&self) -> (r: Self)
        ensures
            cloned(self.spec_inner(), r.spec_inner()),
            r@.undo == self@.undo,
            r@.redo == self@.redo,
            r@.max_steps == self@.max_steps,
    {
        UndoableBuffer {
            buffer: self.buffer.clone(),
            undo_stack: clone_ops(&self.undo_stack),
            redo_stack: clone_ops(&self.redo_stack),
            max_steps: self.max_steps,
        }
    }
}

impl Default for UndoableBuffer<EditorRope> {
    /// An empty rope with a history of up to 100 steps.
    fn default() -> (r: Self)
        ensures
            r.inv(),
            r@.text == Seq::<char>::empty(),
            r@.undo.len() == 0,
            r@.redo.len() == 0,
            r@.max_steps == 100,
    {
        Self::new(EditorRope::default(), 100)
    }
}

impl<T: TextBuffer> UndoableBuffer<T> {
    /// The buffer's text, history and validity are what its view says: the
    /// text is the view's text, undo and redo are available exactly when the
    /// view holds steps for them, and a valid buffer has a consistent history.
    pub proof fn lemma_view(&self)
        ensures
            self.text() == self@.text,
            self.spec_last_edit() == self.spec_inner().spec_last_edit(),
            self.spec_can_undo() == (self@.undo.len() > 0),
            self.spec_can_redo() == (self@.redo.len() > 0),
            self.inv() == (self.spec_inner().inv() && view_valid(self@)),
    {
    }

    /// The wrapped buffer.
    pub closed spec fn spec_inner(&self) -> T {
        self.buffer
    }

    /// Create a new undoable buffer wrapping the given buffer.
    pub fn new(buffer: T, max_steps: usize) -> (r: Self)
        requires
            buffer.inv(),
        ensures
            r.inv(),
            r.text() == buffer.text(),
            r@.text == buffer.text(),
            r@.undo.len() == 0,
            r@.redo.len() == 0,
            r@.max_steps == max_steps,
            r.spec_inner() == buffer,
    {
        let r = UndoableBuffer {
            buffer,
            undo_stack: Vec::new(),
            redo_stack: Vec::new(),
            max_steps,
        };
        proof {
            buffer.lemma_inv_text_fits();
            crate::strings::lemma_utf8_len_bounds(buffer.text());
            assert(r@.undo =~= Seq::<SpecEditOp>::empty());
            assert(r@.redo =~= Seq::<SpecEditOp>::empty());
        }
        r
    }

    /// Get a reference to the inner buffer.
    pub fn inner(&self) -> (r: &T)
        ensures
            *r == self.spec_inner(),
    {
        &self.buffer
    }

    /// Get a mutable reference to the inner buffer.
    /// WARNING: Edits made directly bypass undo tracking!
    pub fn inner_mut(&mut self) -> (r: &mut T)
        ensures
            *r == old(self).spec_inner(),
            final(self).spec_inner() == *final(r),
            final(self)@.undo == old(self)@.undo,
            final(self)@.redo == old(self)@.redo,
            final(self)@.max_steps == old(self)@.max_steps,
    {
        &mut self.buffer
    }

    /// Record an operation (called internally by TextBuffer impl).
    fn record_op(&mut self, pos: usize, deleted: &str, inserted: &str)
        ensures
            final(self).buffer == old(self).buffer,
            final(self).max_steps == old(self).max_steps,
            ops_view(final(self).redo_stack@) == Seq::<SpecEditOp>::empty(),
            ops_view(final(self).undo_stack@) == keep_last(
                ops_view(old(self).undo_stack@).push(
                    SpecEditOp { pos: pos as int, deleted: deleted@, inserted: inserted@ },
                ),
                old(self).max_steps as nat,
            ),
    {
        // Clear redo stack on new edit
        self.redo_stack.clear();

        let op = EditOperation {
            pos,
            deleted: deleted.to_owned(),
            inserted: inserted.to_owned(),
        };
        let ghost spec_op = op.spec_op();
        let ghost pushed = ops_view(old(self).undo_stack@).push(spec_op);

        self.undo_stack.push(op);
        proof {
            assert(ops_view(self.undo_stack@) =~= pushed);
        }

        // Trim if over max
        while self.undo_stack.len() > self.max_steps
            invariant
                self.buffer == old(self).buffer,
                self.max_steps == old(self).max_steps,
                self.redo_stack@.len() == 0,
                keep_last(ops_view(self.undo_stack@), self.max_steps as nat) == keep_last(
                    pushed,
                    self.max_steps as nat,
                ),
            decreases self.undo_stack.len(),
        {
            let ghost before = ops_view(self.undo_stack@);
            self.undo_stack.remove(0);
            proof {
                assert(ops_view(self.undo_stack@) =~= before.drop_first());
                assert(keep_last(before.drop_first(), self.max_steps as nat) =~= keep_last(
                    before,
                    self.max_steps as nat,
                ));
            }
        }
        proof {
            assert(ops_view(self.redo_stack@) =~= Seq::<SpecEditOp>::empty());
        }
    }
}

impl<T: TextBuffer> BufferInvariant for UndoableBuffer<T> {
    closed spec fn inv(&self) -> bool {
        self.buffer.inv() && view_valid(self@)
    }
}

impl<T: TextBuffer> TextBuffer for UndoableBuffer<T> {
    closed spec fn text(&self) -> Seq<char> {
        self.buffer.text()
    }

    closed spec fn spec_last_edit(&self) -> Option<EditInfo> {
        self.buffer.spec_last_edit()
    }

    proof fn lemma_inv_text_fits(&self) {
        self.buffer.lemma_inv_text_fits();
    }

    fn len_bytes(&self) -> (r: usize) {
        self.buffer.len_bytes()
    }

    fn len_chars(&self) -> (r: usize) {
        self.buffer.len_chars()
    }

    fn insert(&mut self, char_offset: usize, text: &str)
        ensures
            final(self)@ == view_insert(old(self)@, char_offset as int, text@),
            final(self).text() == final(self)@.text,
    {
        self.record_op(char_offset, "", text);
        let ghost inner_before = self.buffer.text();
        self.buffer.insert(char_offset, text);
        proof {
            assert(inner_before == old(self).text());
            assert(insert_recorded(inner_before, char_offset as int, text@, self.buffer.spec_last_edit()));
            assert(insert_recorded(old(self).text(), char_offset as int, text@, self.spec_last_edit()));
            reveal_strlit("");
            assert(""@ =~= Seq::<char>::empty());
            let op = SpecEditOp { pos: char_offset as int, deleted: ""@, inserted: text@ };
            let t = self.buffer.text();
            assert(t.subrange(op.pos, op.pos + op.inserted.len()) =~= text@);
            assert(unapply(t, op) =~= old(self)@.text);
            lemma_view_record_valid(old(self)@, op, t);
            assert(self@ == view_record(old(self)@, op, t));
        }
    }

    fn delete(&mut self, char_range: std::ops::Range<usize>)
        ensures
            final(self)@ == view_delete(
                old(self)@,
                char_range.start as int,
                char_range.end as int,
            ),
            final(self).text() == final(self)@.text,
    {
        // Get the text being deleted for undo
        let deleted = match self.buffer.slice(
            std::ops::Range { start: char_range.start, end: char_range.end },
        ) {
            Some(s) => s,
            None => String::new(),
        };
        let start = char_range.start;
        self.record_op(start, deleted.as_str(), "");
        self.buffer.delete(char_range);
        proof {
            reveal_strlit("");
            assert(""@ =~= Seq::<char>::empty());
            let op = SpecEditOp { pos: start as int, deleted: deleted@, inserted: ""@ };
            let t = self.buffer.text();
            assert(t.subrange(op.pos, op.pos) =~= Seq::<char>::empty());
            assert(unapply(t, op) =~= old(self)@.text);
            lemma_view_record_valid(old(self)@, op, t);
            assert(self@ == view_record(old(self)@, op, t));
        }
    }

    fn slice(&self, char_range: std::ops::Range<usize>) -> (r: Option<String>) {
        self.buffer.slice(char_range)
    }

    fn char_at(&self, char_offset: usize) -> (r: Option<char>) {
        self.buffer.char_at(char_offset)
    }

    fn to_string(&self) -> (r: String) {
        self.buffer.to_string()
    }

    fn char_to_byte(&self, char_offset: usize) -> (r: usize) {
        self.buffer.char_to_byte(char_offset)
    }

    fn byte_to_char(&self, byte_offset: usize) -> (r: usize) {
        self.buffer.byte_to_char(byte_offset)
    }

    fn last_edit(&self) -> (r: Option<EditInfo>) {
        self.buffer.last_edit()
    }
}

impl<T: TextBuffer> UndoManager for UndoableBuffer<T> {
    closed spec fn spec_can_undo(&self) -> bool {
        self@.undo.len() > 0
    }

    closed spec fn spec_can_redo(&self) -> bool {
        self@.redo.len() > 0
    }

    fn can_undo(&self) -> (r: bool)
        ensures
            r == (self@.undo.len() > 0),
    {
        !self.undo_stack.is_empty()
    }

    fn can_redo(&self) -> (r: bool)
        ensures
            r == (self@.redo.len() > 0),
    {
        !self.redo_stack.is_empty()
    }

    fn undo(&mut self) -> (r: bool)
        ensures
            r == (old(self)@.undo.len() > 0),
            final(self)@ == view_undo(old(self)@),
            final(self).text() == final(self)@.text,
    {
        if self.undo_stack.is_empty() {
            return false;
        }
        let op = match self.undo_stack.pop() {
            Some(op) => op,
            None => {
                return false;
            },
        };
        let ghost sop = op.spec_op();
        let ghost t0 = old(self)@.text;
        proof {
            assert(sop == old(self)@.undo.last());
            assert(ops_view(self.undo_stack@) =~= old(self)@.undo.drop_last());
        }

        // Apply inverse: delete what was inserted, insert what was deleted
        let inserted_chars = op.inserted.as_str().unicode_len();
        if inserted_chars > 0 {
            self.buffer.delete(std::ops::Range { start: op.pos, end: op.pos + inserted_chars });
        }
        proof {
            assert(self.buffer.text() =~= t0.take(sop.pos) + t0.skip(sop.pos + sop.inserted.len()));
        }
        if !op.deleted.as_str().is_empty() {
            self.buffer.insert(op.pos, op.deleted.as_str());
        }
        proof {
            assert(self.buffer.text() =~= unapply(t0, sop));
        }

        self.redo_stack.push(op);
        proof {
            assert(ops_view(self.redo_stack@) =~= old(self)@.redo.push(sop));
            lemma_view_undo_valid(old(self)@);
        }
        true
    }

    fn redo(&mut self) -> (r: bool)
        ensures
            r == (old(self)@.redo.len() > 0),
            final(self)@ == view_redo(old(self)@),
            final(self).text() == final(self)@.text,
    {
        if self.redo_stack.is_empty() {
            return false;
        }
        let op = match self.redo_stack.pop() {
            Some(op) => op,
            None => {
                return false;
            },
        };
        let ghost sop = op.spec_op();
        let ghost t0 = old(self)@.text;
        proof {
            assert(sop == old(self)@.redo.last());
            assert(ops_view(self.redo_stack@) =~= old(self)@.redo.drop_last());
        }

        // Re-apply original: delete what was deleted, insert what was inserted
        let deleted_chars = op.deleted.as_str().unicode_len();
        if deleted_chars > 0 {
            self.buffer.delete(std::ops::Range { start: op.pos, end: op.pos + deleted_chars });
        }
        proof {
            assert(self.buffer.text() =~= t0.take(sop.pos) + t0.skip(sop.pos + sop.deleted.len()));
        }
        if !op.inserted.as_str().is_empty() {
            self.buffer.insert(op.pos, op.inserted.as_str());
        }
        proof {
            assert(self.buffer.text() =~= reapply(t0, sop));
        }

        self.undo_stack.push(op);
        proof {
            assert(ops_view(self.undo_stack@) =~= old(self)@.undo.push(sop));
            lemma_view_redo_valid(old(self)@);
        }
        true
    }

    fn clear_history(&mut self)
        ensures
            final(self)@.text == old(self)@.text,
            final(self)@.undo.len() == 0,
            final(self)@.redo.len() == 0,
    {
        self.undo_stack.clear();
        self.redo_stack.clear();
        proof {
            assert(self@.undo =~= Seq::<SpecEditOp>::empty());
            assert(self@.redo =~= Seq::<SpecEditOp>::empty());
        }
    }
}

} // verus!
