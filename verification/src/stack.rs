//! The call stack: a fixed store of bytes that holds the frames of the calls
//! in progress, each with its locals and its evaluation stack.
//!
//! A frame is laid out as follows, and the frames follow one another from
//! index 0:
//!
//! | field           | bytes | holds                                          |
//! |-----------------|-------|------------------------------------------------|
//! | saved fp        | 2     | where the frame below starts                   |
//! | return pc       | 4     | where to go on after the call                  |
//! | return variable | 1     | the variable that takes the result             |
//! | locals          | 1     | the number of locals                           |
//! | each local      | 2     |                                                |
//!
//! The evaluation stack of the call follows its locals. The bottom frame
//! has no frame below it, and saves the size of the store instead.

use vstd::prelude::*;
use crate::addressing::ZOffset;
use crate::bytes::byte_from_slice;
use crate::bytes::byte_to_slice;
use crate::bytes::lemma_split_word;
use crate::bytes::lemma_word_round_trip;
use crate::bytes::long_word_at;
use crate::bytes::long_word_from_slice;
use crate::bytes::word_at;
use crate::bytes::word_from_slice;
use crate::bytes::word_to_slice;
use crate::constants::stack::STACK_SIZE;
use crate::error::ZError;
use crate::model::stack::lemma_offset_of_prefix;
use crate::model::stack::lemma_offsets_grow;
use crate::model::stack::offset_of;
use crate::model::stack::FrameView;
use crate::model::stack::StackView;
use crate::model::stack::FRAME_HEADER_SIZE;
use crate::traits::Stack;
use crate::variable::ZVariable;
use crate::variable::LOCAL_START_RAW;

verus! {

/// Where in a frame the start of the frame below is saved.
const SAVED_FP_OFFSET: usize = 0;

/// Where in a frame the return address is kept.
const RETURN_PC_OFFSET: usize = 2;

/// Where in a frame the return variable is kept.
const RETURN_VAR_OFFSET: usize = 6;

/// Where in a frame the number of locals is kept.
const NUM_LOCALS_OFFSET: usize = 7;

/// Where in a frame the locals start.
const LOCAL_VAR_OFFSET: usize = 8;

/// Frames that are laid out in some bytes are laid out in all bytes that
/// agree with them below the end of those frames, and under every stack
/// that agrees on those frames.
proof fn lemma_frames_stay(
    before: StackView,
    after: StackView,
    old_bytes: Seq<u8>,
    new_bytes: Seq<u8>,
    n: int,
)
    requires
        0 <= n <= before.frames.len(),
        n <= after.frames.len(),
        before.capacity == after.capacity,
        forall|i: int| 0 <= i < n ==> before.frames[i] == after.frames[i],
        forall|i: int| 0 <= i < n ==> #[trigger] before.frame_laid_out(old_bytes, i),
        forall|p: int| 0 <= p < offset_of(before.frames, n) ==> old_bytes[p] == new_bytes[p],
    ensures
        forall|i: int| 0 <= i < n ==> #[trigger] after.frame_laid_out(new_bytes, i),
{
    assert forall|i: int| 0 <= i < n implies #[trigger] after.frame_laid_out(new_bytes, i) by {
        assert(before.frame_laid_out(old_bytes, i));
        lemma_offset_of_prefix(before.frames, after.frames, i);
        lemma_offset_of_prefix(before.frames, after.frames, i - 1);
        lemma_offsets_grow(before.frames, i, n);
        lemma_offsets_grow(before.frames, 0, i);
        let frame = after.frames[i];
        let at = offset_of(after.frames, i);
        assert forall|j: int| 0 <= j < frame.locals.len() implies word_at(
            new_bytes,
            at + FRAME_HEADER_SIZE + 2 * j,
        ) == #[trigger] frame.locals[j] by {
            assert(word_at(old_bytes, at + FRAME_HEADER_SIZE + 2 * j) == frame.locals[j]);
        }
        assert forall|k: int| 0 <= k < frame.eval.len() implies new_bytes[at + FRAME_HEADER_SIZE + 2
            * frame.locals.len() + k] == #[trigger] frame.eval[k] by {
            assert(old_bytes[at + FRAME_HEADER_SIZE + 2 * frame.locals.len() + k] == frame.eval[k]);
        }
    }
}

/// The frame of the current call lies inside the store, where the stack's
/// three indexes say.
proof fn lemma_current_frame(view: StackView, bytes: Seq<u8>)
    requires
        view.wf(),
        view.laid_out(bytes),
    ensures
        0 <= view.frame_pointer(),
        view.frame_base() + view.top().eval.len() == view.used(),
        view.used() <= bytes.len(),
        view.top().wf(),
        view.frame_laid_out(bytes, view.frames.len() - 1),
        view.frames.len() >= 2 ==> view.saved_fp() + view.frames[view.frames.len() - 2].size()
            == view.frame_pointer() && 0 <= view.saved_fp(),
{
    let n = view.frames.len() as int;
    lemma_offsets_grow(view.frames, 0, n - 1);
    assert(view.frames[n - 1].wf());
    if n >= 2 {
        lemma_offsets_grow(view.frames, 0, n - 2);
    }
}

/// A stack stays as it should be, and laid out, when the frame of the
/// current call changes, if the bytes below that frame stay and the new
/// frame is laid out where the old one was.
proof fn lemma_top_replaced(
    before: StackView,
    frame: FrameView,
    old_bytes: Seq<u8>,
    new_bytes: Seq<u8>,
)
    requires
        before.wf(),
        before.laid_out(old_bytes),
        new_bytes.len() == old_bytes.len(),
        frame.wf(),
        before.frame_pointer() + frame.size() <= before.capacity,
        forall|p: int| 0 <= p < before.frame_pointer() ==> old_bytes[p] == new_bytes[p],
        before.with_top(frame).frame_laid_out(new_bytes, before.frames.len() - 1),
    ensures
        before.with_top(frame).wf(),
        before.with_top(frame).laid_out(new_bytes),
        before.with_top(frame).frame_pointer() == before.frame_pointer(),
        before.with_top(frame).used() == before.frame_pointer() + frame.size(),
{
    let after = before.with_top(frame);
    let n = before.frames.len() as int;
    lemma_offset_of_prefix(before.frames, after.frames, n - 1);
    lemma_frames_stay(before, after, old_bytes, new_bytes, n - 1);
    assert forall|i: int| 0 <= i < after.frames.len() implies (#[trigger] after.frames[i]).wf() by {
        if i < n - 1 {
            assert(before.frames[i].wf());
        }
    }
}

/// A new frame of the current call is laid out where the old one was, if
/// the bytes of the header stay, the new frame keeps what the header holds,
/// and its locals and its evaluation stack are in the bytes where they
/// belong.
proof fn lemma_header_stays(
    before: StackView,
    frame: FrameView,
    old_bytes: Seq<u8>,
    new_bytes: Seq<u8>,
)
    requires
        before.wf(),
        before.laid_out(old_bytes),
        forall|p: int|
            before.frame_pointer() <= p < before.frame_pointer() + FRAME_HEADER_SIZE
                ==> old_bytes[p] == new_bytes[p],
        frame.return_pc == before.top().return_pc,
        frame.return_variable == before.top().return_variable,
        frame.locals.len() == before.top().locals.len(),
        forall|j: int|
            0 <= j < frame.locals.len() ==> word_at(
                new_bytes,
                before.frame_pointer() + FRAME_HEADER_SIZE + 2 * j,
            ) == #[trigger] frame.locals[j],
        forall|k: int|
            0 <= k < frame.eval.len() ==> new_bytes[before.frame_base() + k]
                == #[trigger] frame.eval[k],
    ensures
        before.with_top(frame).frame_laid_out(new_bytes, before.frames.len() - 1),
{
    let after = before.with_top(frame);
    let n = before.frames.len() as int;
    lemma_current_frame(before, old_bytes);
    lemma_offset_of_prefix(before.frames, after.frames, n - 1);
    lemma_offset_of_prefix(before.frames, after.frames, n - 2);
}

/// The two halves in which a frame keeps a return address give the address
/// back, as far as it fits in four bytes.
proof fn lemma_split_return_pc(addr: usize)
    ensures
        (addr >> 16) & 0xffff == (addr as nat / 0x1_0000) % 0x1_0000,
        addr & 0xffff == addr as nat % 0x1_0000,
        ((addr >> 16) & 0xffff) * 0x1_0000 + (addr & 0xffff) == addr as nat % 0x1_0000_0000,
{
    assert((addr >> 16) & 0xffff == (addr / 0x1_0000) % 0x1_0000) by (bit_vector);
    assert(addr & 0xffff == addr % 0x1_0000) by (bit_vector);
    assert((((addr >> 16) & 0xffff) as u64) * 0x1_0000 + ((addr & 0xffff) as u64) == (addr as u64)
        % 0x1_0000_0000u64) by (bit_vector);
}

/// The call stack of the machine.
pub struct ZStack {
    stack: [u8; STACK_SIZE],
    /// Where the frame of the current call starts.
    fp: usize,
    /// Where the evaluation stack of the current call starts: the first byte
    /// after its locals.
    s0: usize,
    /// The next free byte.
    sp: usize,
    /// The calls in progress.
    frames: Ghost<Seq<FrameView>>,
}

impl Default for ZStack {
    /// The stack that a machine starts with.
    fn default() -> (stack: ZStack)
        ensures
            stack.wf(),
            stack.model() == StackView::initial(STACK_SIZE as nat),
    {
        let mut bytes: [u8; STACK_SIZE] = [0; STACK_SIZE];
        init_new_stack(&mut bytes);
        let stack = ZStack {
            stack: bytes,
            fp: 0,
            s0: LOCAL_VAR_OFFSET,
            sp: LOCAL_VAR_OFFSET,
            frames: Ghost(Seq::empty().push(FrameView::base())),
        };
        proof {
            let view = stack.model();
            assert(view.frames =~= StackView::initial(STACK_SIZE as nat).frames);
            reveal_with_fuel(offset_of, 2);
            assert(view.frame_laid_out(bytes@, 0));
        }
        stack
    }
}

/// Writes the header of the bottom frame at the start of the store: in
/// place of a frame below it the size of the store, then return address 0,
/// the stack variable, and no locals.
fn init_new_stack(bytes: &mut [u8; STACK_SIZE])
    ensures
        word_at(final(bytes)@, 0) == STACK_SIZE,
        long_word_at(final(bytes)@, 2) == 0,
        final(bytes)@[6] == 0,
        final(bytes)@[7] == 0,
{
    proof {
        lemma_split_word(STACK_SIZE as u16);
        lemma_split_word(0);
    }
    word_to_slice(bytes, SAVED_FP_OFFSET, STACK_SIZE as u16);
    word_to_slice(bytes, RETURN_PC_OFFSET, 0);
    word_to_slice(bytes, RETURN_PC_OFFSET + 2, 0);
    byte_to_slice(bytes, RETURN_VAR_OFFSET, 0);
    byte_to_slice(bytes, NUM_LOCALS_OFFSET, 0);
}

impl ZStack {
    /// Where the frame of the current call starts.
    pub fn fp(&self) -> (fp: usize)
        requires
            self.wf(),
        ensures
            fp == self.model().frame_pointer(),
    {
        self.fp
    }

    /// Where the evaluation stack of the current call starts.
    pub fn s0(&self) -> (s0: usize)
        requires
            self.wf(),
        ensures
            s0 == self.model().frame_base(),
    {
        self.s0
    }

    /// The next free byte: the number of bytes in use.
    pub fn sp(&self) -> (sp: usize)
        requires
            self.wf(),
        ensures
            sp == self.model().used(),
    {
        self.sp
    }

    /// The whole store. The bytes in use hold the frames; of the others
    /// nothing is known.
    pub fn as_bytes(&self) -> (bytes: &[u8])
        requires
            self.wf(),
        ensures
            self.model().laid_out(bytes@),
    {
        self.stack.as_slice()
    }

    /// Pushes a return address on the evaluation stack. May fail after a
    /// part of the address has been pushed.
    pub fn push_offset(&mut self, offset: ZOffset) -> (r: Result<(), ZError>)
        requires
            old(self).wf(),
        ensures
            final(self).wf(),
            (final(self).model(), r) == old(self).model().push_offset(offset@),
    {
        let addr: usize = offset.0;
        proof {
            lemma_split_return_pc(addr);
        }
        match self.push_word(((addr >> 16) & 0xffff) as u16) {
            Ok(()) => {},
            Err(e) => {
                return Err(e);
            },
        }
        self.push_word((addr & 0xffff) as u16)
    }

    /// What the frame of the current call has saved as the start of the
    /// frame below it.
    pub fn saved_fp(&self) -> (saved: usize)
        requires
            self.wf(),
        ensures
            saved == self.model().saved_fp(),
    {
        proof {
            lemma_current_frame(self.model(), self.stack@);
        }
        word_from_slice(self.stack.as_slice(), self.fp + SAVED_FP_OFFSET) as usize
    }

    /// The number of locals of the current call.
    pub fn num_locals(&self) -> (count: u8)
        requires
            self.wf(),
        ensures
            count == self.model().top().locals.len(),
    {
        proof {
            lemma_current_frame(self.model(), self.stack@);
        }
        byte_from_slice(self.stack.as_slice(), self.fp + NUM_LOCALS_OFFSET)
    }
}

impl Stack for ZStack {
    closed spec fn model(&self) -> StackView {
        StackView { frames: self.frames@, capacity: STACK_SIZE as nat }
    }

    /// The bytes of the store hold the frames, and the three indexes point
    /// into the frame of the current call.
    closed spec fn wf(&self) -> bool {
        &&& self.model().wf()
        &&& self.model().laid_out(self.stack@)
        &&& self.sp == self.model().used()
        &&& self.fp == self.model().frame_pointer()
        &&& self.s0 == self.model().frame_base()
    }

    proof fn lemma_model_wf(&self) {
    }

    fn push_byte(&mut self, val: u8) -> (r: Result<(), ZError>) {
        if self.sp >= STACK_SIZE {
            return Err(ZError::StackOverflow);
        }
        let ghost before = self.model();
        let ghost old_bytes = self.stack@;
        self.stack[self.sp] = val;
        self.sp = self.sp + 1;
        proof {
            let top = before.top();
            let grown = FrameView { eval: top.eval.push(val), ..top };
            self.frames@ = before.with_top(grown).frames;
            lemma_current_frame(before, old_bytes);
            assert forall|j: int| 0 <= j < grown.locals.len() implies word_at(
                self.stack@,
                before.frame_pointer() + FRAME_HEADER_SIZE + 2 * j,
            ) == #[trigger] grown.locals[j] by {
                assert(word_at(old_bytes, before.frame_pointer() + FRAME_HEADER_SIZE + 2 * j)
                    == top.locals[j]);
            }
            assert forall|k: int| 0 <= k < grown.eval.len() implies self.stack@[before.frame_base()
                + k] == #[trigger] grown.eval[k] by {
                if k < top.eval.len() {
                    assert(old_bytes[before.frame_base() + k] == top.eval[k]);
                }
            }
            lemma_header_stays(before, grown, old_bytes, self.stack@);
            lemma_top_replaced(before, grown, old_bytes, self.stack@);
        }
        Ok(())
    }

    fn pop_byte(&mut self) -> (r: Result<u8, ZError>) {
        proof {
            lemma_current_frame(self.model(), self.stack@);
        }
        if self.sp <= self.s0 {
            return Err(ZError::StackUnderflow);
        }
        let ghost before = self.model();
        self.sp = self.sp - 1;
        let val = self.stack[self.sp];
        proof {
            let top = before.top();
            let shrunk = FrameView { eval: top.eval.drop_last(), ..top };
            self.frames@ = before.with_top(shrunk).frames;
            assert(val == top.eval[top.eval.len() - 1]);
            assert forall|j: int| 0 <= j < shrunk.locals.len() implies word_at(
                self.stack@,
                before.frame_pointer() + FRAME_HEADER_SIZE + 2 * j,
            ) == #[trigger] shrunk.locals[j] by {
                assert(word_at(self.stack@, before.frame_pointer() + FRAME_HEADER_SIZE + 2 * j)
                    == top.locals[j]);
            }
            assert forall|k: int| 0 <= k < shrunk.eval.len() implies self.stack@[before.frame_base()
                + k] == #[trigger] shrunk.eval[k] by {
                assert(self.stack@[before.frame_base() + k] == top.eval[k]);
            }
            lemma_header_stays(before, shrunk, self.stack@, self.stack@);
            lemma_top_replaced(before, shrunk, self.stack@, self.stack@);
        }
        Ok(val)
    }

    fn push_frame(
        &mut self,
        return_pc: ZOffset,
        num_locals: u8,
        return_var: ZVariable,
        operands: &[u16],
    ) -> (r: Result<(), ZError>) {
        let needed: usize = LOCAL_VAR_OFFSET + 2 * (num_locals as usize);
        let ghost before = self.model();
        let ghost old_bytes = self.stack@;
        let ghost n = before.frames.len() as int;
        let ghost frame = FrameView::for_call(return_pc@, num_locals, return_var, operands@);
        proof {
            lemma_current_frame(before, old_bytes);
        }
        if STACK_SIZE - self.sp < needed {
            return Err(ZError::StackOverflow);
        }
        let new_fp: usize = self.sp;
        let old_fp: usize = self.fp;
        let addr: usize = return_pc.0;
        proof {
            lemma_split_return_pc(addr);
        }
        let pc_high: u16 = ((addr >> 16) & 0xffff) as u16;
        let pc_low: u16 = (addr & 0xffff) as u16;
        word_to_slice(&mut self.stack, new_fp + SAVED_FP_OFFSET, old_fp as u16);
        word_to_slice(&mut self.stack, new_fp + RETURN_PC_OFFSET, pc_high);
        word_to_slice(&mut self.stack, new_fp + RETURN_PC_OFFSET + 2, pc_low);
        byte_to_slice(&mut self.stack, new_fp + RETURN_VAR_OFFSET, return_var.0);
        byte_to_slice(&mut self.stack, new_fp + NUM_LOCALS_OFFSET, num_locals);
        let ghost header_bytes = self.stack@;
        proof {
            lemma_split_word(old_fp as u16);
            lemma_split_word(pc_high);
            lemma_split_word(pc_low);
            assert(word_at(header_bytes, new_fp as int) == old_fp);
            assert(long_word_at(header_bytes, new_fp + 2) == frame.return_pc);
            assert(header_bytes[new_fp + 6] == return_var.0);
            assert(header_bytes[new_fp + 7] == num_locals);
            assert(forall|p: int| 0 <= p < new_fp ==> header_bytes[p] == old_bytes[p]);
        }
        let mut idx: usize = 0;
        while idx < num_locals as usize
            invariant
                idx <= num_locals,
                new_fp + LOCAL_VAR_OFFSET + 2 * num_locals <= STACK_SIZE,
                frame == FrameView::for_call(return_pc@, num_locals, return_var, operands@),
                self.stack@.len() == STACK_SIZE,
                header_bytes.len() == STACK_SIZE,
                forall|p: int| 0 <= p < new_fp + LOCAL_VAR_OFFSET ==> self.stack@[p] == header_bytes[p],
                forall|j: int|
                    0 <= j < idx ==> word_at(self.stack@, new_fp + LOCAL_VAR_OFFSET + 2 * j)
                        == #[trigger] frame.locals[j],
                self.fp == old(self).fp,
                self.sp == old(self).sp,
                self.s0 == old(self).s0,
                self.frames == old(self).frames,
            decreases num_locals - idx,
        {
            let val: u16 = if idx < operands.len() {
                operands[idx]
            } else {
                0
            };
            let ghost loop_bytes = self.stack@;
            let at: usize = new_fp + LOCAL_VAR_OFFSET + 2 * idx;
            word_to_slice(&mut self.stack, at, val);
            proof {
                lemma_word_round_trip(loop_bytes, at as int, val);
                assert forall|j: int| 0 <= j < idx + 1 implies word_at(
                    self.stack@,
                    new_fp + LOCAL_VAR_OFFSET + 2 * j,
                ) == #[trigger] frame.locals[j] by {
                    if j < idx {
                        assert(word_at(loop_bytes, new_fp + LOCAL_VAR_OFFSET + 2 * j)
                            == frame.locals[j]);
                    }
                }
            }
            idx = idx + 1;
        }
        self.fp = new_fp;
        self.sp = new_fp + needed;
        self.s0 = self.sp;
        proof {
            self.frames@ = before.frames.push(frame);
            let after = self.model();
            lemma_offset_of_prefix(before.frames, after.frames, n);
            lemma_offset_of_prefix(before.frames, after.frames, n - 1);
            assert forall|p: int| 0 <= p < new_fp implies old_bytes[p] == self.stack@[p] by {
                assert(header_bytes[p] == old_bytes[p]);
            }
            lemma_frames_stay(before, after, old_bytes, self.stack@, n);
            assert(word_at(self.stack@, new_fp as int) == word_at(header_bytes, new_fp as int));
            assert(long_word_at(self.stack@, new_fp + 2) == long_word_at(header_bytes, new_fp + 2));
            assert(after.saved_fp_of(n) == old_fp);
            assert(after.frame_laid_out(self.stack@, n));
            assert forall|i: int| 0 <= i < after.frames.len() implies (
            #[trigger] after.frames[i]).wf() by {
                if i < n {
                    assert(before.frames[i].wf());
                }
            }
        }
        Ok(())
    }

    fn pop_frame(&mut self) -> (r: Result<(), ZError>) {
        let ghost before = self.model();
        let ghost n = before.frames.len() as int;
        proof {
            lemma_current_frame(before, self.stack@);
        }
        let saved_fp = self.saved_fp();
        if saved_fp >= STACK_SIZE {
            return Err(ZError::CannotPopBaseFrame);
        }
        proof {
            assert(before.frame_laid_out(self.stack@, n - 2));
            assert(before.frames[n - 2].wf());
        }
        self.sp = self.fp;
        self.fp = saved_fp;
        let num_locals = byte_from_slice(self.stack.as_slice(), self.fp + NUM_LOCALS_OFFSET);
        self.s0 = self.fp + LOCAL_VAR_OFFSET + 2 * (num_locals as usize);
        proof {
            self.frames@ = before.frames.drop_last();
            let after = self.model();
            lemma_offset_of_prefix(before.frames, after.frames, n - 1);
            lemma_offset_of_prefix(before.frames, after.frames, n - 2);
            lemma_frames_stay(before, after, self.stack@, self.stack@, n - 1);
            assert forall|i: int| 0 <= i < after.frames.len() implies (
            #[trigger] after.frames[i]).wf() by {
                assert(before.frames[i].wf());
            }
        }
        Ok(())
    }

    fn read_local(&self, var: ZVariable) -> (r: Result<u16, ZError>) {
        if !var.is_local() {
            return Err(ZError::ExpectedLocal);
        }
        let idx: u8 = var.0 - LOCAL_START_RAW;
        proof {
            lemma_current_frame(self.model(), self.stack@);
        }
        if idx >= self.num_locals() {
            return Err(ZError::LocalIndexOutOfRange);
        }
        let at: usize = self.fp + LOCAL_VAR_OFFSET + 2 * (idx as usize);
        proof {
            assert(word_at(self.stack@, at as int) == self.model().top().locals[idx as int]);
        }
        Ok(word_from_slice(self.stack.as_slice(), at))
    }

    fn write_local(&mut self, var: ZVariable, val: u16) -> (r: Result<(), ZError>) {
        if !var.is_local() {
            return Err(ZError::ExpectedLocal);
        }
        let idx: u8 = var.0 - LOCAL_START_RAW;
        let ghost before = self.model();
        let ghost old_bytes = self.stack@;
        proof {
            lemma_current_frame(before, old_bytes);
        }
        if idx >= self.num_locals() {
            return Err(ZError::LocalIndexOutOfRange);
        }
        let at: usize = self.fp + LOCAL_VAR_OFFSET + 2 * (idx as usize);
        word_to_slice(&mut self.stack, at, val);
        proof {
            let top = before.top();
            let changed = FrameView { locals: top.locals.update(idx as int, val), ..top };
            self.frames@ = before.with_top(changed).frames;
            assert forall|j: int| 0 <= j < changed.locals.len() implies word_at(
                self.stack@,
                before.frame_pointer() + FRAME_HEADER_SIZE + 2 * j,
            ) == #[trigger] changed.locals[j] by {
                if j == idx {
                    lemma_word_round_trip(old_bytes, at as int, val);
                } else {
                    assert(word_at(old_bytes, before.frame_pointer() + FRAME_HEADER_SIZE + 2 * j)
                        == top.locals[j]);
                }
            }
            assert forall|k: int| 0 <= k < changed.eval.len() implies self.stack@[before.frame_base()
                + k] == #[trigger] changed.eval[k] by {
                assert(old_bytes[before.frame_base() + k] == top.eval[k]);
            }
            lemma_header_stays(before, changed, old_bytes, self.stack@);
            lemma_top_replaced(before, changed, old_bytes, self.stack@);
        }
        Ok(())
    }

    fn return_pc(&self) -> (pc: usize) {
        proof {
            lemma_current_frame(self.model(), self.stack@);
        }
        long_word_from_slice(self.stack.as_slice(), self.fp + RETURN_PC_OFFSET)
    }

    fn return_variable(&self) -> (var: ZVariable) {
        proof {
            lemma_current_frame(self.model(), self.stack@);
        }
        ZVariable::raw(byte_from_slice(self.stack.as_slice(), self.fp + RETURN_VAR_OFFSET))
    }
}

} // verus!
