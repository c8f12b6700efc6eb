//! A stack as its users see it.

use vstd::prelude::*;
use crate::bytes::high_byte;
use crate::bytes::lemma_split_word;
use crate::bytes::long_word_at;
use crate::bytes::low_byte;
use crate::bytes::word_at;
use crate::error::ZError;
use crate::variable::ZVariable;
use crate::variable::MAX_LOCAL;

verus! {

/// The number of bytes in the header of a frame.
pub const FRAME_HEADER_SIZE: usize = 8;

/// One past the largest return address that a frame can hold.
pub const RETURN_PC_LIMIT: u64 = 0x1_0000_0000;

/// One routine call on the stack.
pub struct FrameView {
    /// Where to go on when the routine returns.
    pub return_pc: nat,
    /// The variable that takes the routine's result.
    pub return_variable: ZVariable,
    /// The routine's locals.
    pub locals: Seq<u16>,
    /// The routine's evaluation stack, the oldest byte first.
    pub eval: Seq<u8>,
}

impl FrameView {
    /// The number of bytes that the frame takes on the stack: its header,
    /// two bytes for each local, and its evaluation stack.
    pub open spec fn size(self) -> nat {
        FRAME_HEADER_SIZE as nat + 2 * self.locals.len() + self.eval.len()
    }

    /// What holds of every frame: its return address fits in four bytes and
    /// the number of its locals in one.
    pub open spec fn wf(self) -> bool {
        &&& self.return_pc < RETURN_PC_LIMIT
        &&& self.locals.len() <= u8::MAX
    }

    /// The frame that the machine makes for a call. Its locals are zero, but
    /// for the first ones, which take the operands as far as there are
    /// locals for them; further operands are dropped. Its evaluation stack
    /// is empty.
    pub open spec fn for_call(
        return_pc: nat,
        num_locals: u8,
        return_variable: ZVariable,
        operands: Seq<u16>,
    ) -> FrameView {
        FrameView {
            return_pc: return_pc % RETURN_PC_LIMIT as nat,
            return_variable,
            locals: Seq::new(
                num_locals as nat,
                |j: int|
                    if j < operands.len() {
                        operands[j]
                    } else {
                        0u16
                    },
            ),
            eval: Seq::empty(),
        }
    }

    /// The frame at the bottom of every stack, which stands for no call: it
    /// returns to 0, gives its result to the stack variable and has no
    /// locals.
    pub open spec fn base() -> FrameView {
        FrameView {
            return_pc: 0,
            return_variable: ZVariable(0),
            locals: Seq::empty(),
            eval: Seq::empty(),
        }
    }
}

/// The number of bytes that the first `n` of the frames take: the index at
/// which frame `n` starts.
pub open spec fn offset_of(frames: Seq<FrameView>, n: int) -> int
    decreases n,
{
    if n <= 0 {
        0
    } else {
        offset_of(frames, n - 1) + frames[n - 1].size()
    }
}

/// What a stack is to its users: the frames of the calls in progress, the
/// oldest first, in a store of a fixed number of bytes.
pub struct StackView {
    pub frames: Seq<FrameView>,
    pub capacity: nat,
}

impl StackView {
    /// What holds of every stack: it has a bottom frame, and its frames are
    /// as frames should be and fit in the store.
    pub open spec fn wf(self) -> bool {
        &&& self.frames.len() >= 1
        &&& self.used() <= self.capacity
        &&& forall|i: int| 0 <= i < self.frames.len() ==> (#[trigger] self.frames[i]).wf()
    }

    /// The stack that a machine starts with: the base frame alone.
    pub open spec fn initial(capacity: nat) -> StackView {
        StackView { frames: seq![FrameView::base()], capacity }
    }

    /// The number of bytes in use.
    pub open spec fn used(self) -> int {
        offset_of(self.frames, self.frames.len() as int)
    }

    /// The number of bytes that are left.
    pub open spec fn free(self) -> int {
        self.capacity - self.used()
    }

    /// The frame of the current call.
    pub open spec fn top(self) -> FrameView {
        self.frames.last()
    }

    /// The stack with the frame of the current call replaced.
    pub open spec fn with_top(self, frame: FrameView) -> StackView {
        StackView { frames: self.frames.update(self.frames.len() - 1, frame), ..self }
    }

    /// The index at which the frame of the current call starts.
    pub open spec fn frame_pointer(self) -> int {
        offset_of(self.frames, self.frames.len() - 1)
    }

    /// The index at which the evaluation stack of the current call starts.
    pub open spec fn frame_base(self) -> int {
        self.frame_pointer() + FRAME_HEADER_SIZE + 2 * self.top().locals.len()
    }

    /// What the frame of the current call has saved as the start of the
    /// frame below it. The bottom frame has none below it and has saved the
    /// capacity, at which no frame can start.
    pub open spec fn saved_fp(self) -> int {
        self.saved_fp_of(self.frames.len() - 1)
    }

    /// What frame `i` has saved as the start of the frame below it.
    pub open spec fn saved_fp_of(self, i: int) -> int {
        if i <= 0 {
            self.capacity as int
        } else {
            offset_of(self.frames, i - 1)
        }
    }

    /// Whether `bytes` hold frame `i` as the machine lays a frame out: the
    /// saved frame pointer in two bytes, the return address in four, the
    /// return variable in one, the number of locals in one, then the locals
    /// in two bytes each, then the evaluation stack.
    pub open spec fn frame_laid_out(self, bytes: Seq<u8>, i: int) -> bool {
        let frame = self.frames[i];
        let at = offset_of(self.frames, i);
        &&& word_at(bytes, at) == self.saved_fp_of(i)
        &&& long_word_at(bytes, at + 2) == frame.return_pc
        &&& bytes[at + 6] == frame.return_variable.0
        &&& bytes[at + 7] == frame.locals.len()
        &&& forall|j: int|
            0 <= j < frame.locals.len() ==> word_at(bytes, at + FRAME_HEADER_SIZE + 2 * j)
                == #[trigger] frame.locals[j]
        &&& forall|k: int|
            0 <= k < frame.eval.len() ==> bytes[at + FRAME_HEADER_SIZE + 2 * frame.locals.len() + k]
                == #[trigger] frame.eval[k]
    }

    /// Whether `bytes` hold the stack as the machine lays it out: frame after
    /// frame from index 0.
    pub open spec fn laid_out(self, bytes: Seq<u8>) -> bool {
        &&& bytes.len() == self.capacity
        &&& forall|i: int| 0 <= i < self.frames.len() ==> #[trigger] self.frame_laid_out(bytes, i)
    }

    /// The stack after an attempt to push a byte on the evaluation stack,
    /// and how the attempt ended.
    pub open spec fn push_byte(self, val: u8) -> (StackView, Result<(), ZError>) {
        if self.free() >= 1 {
            (self.with_top(FrameView { eval: self.top().eval.push(val), ..self.top() }), Ok(()))
        } else {
            (self, Err(ZError::StackOverflow))
        }
    }

    /// The stack after an attempt to pop a byte off the evaluation stack,
    /// and the byte.
    pub open spec fn pop_byte(self) -> (StackView, Result<u8, ZError>) {
        if self.top().eval.len() >= 1 {
            (
                self.with_top(FrameView { eval: self.top().eval.drop_last(), ..self.top() }),
                Ok(self.top().eval.last()),
            )
        } else {
            (self, Err(ZError::StackUnderflow))
        }
    }

    /// The stack after an attempt to push a word, the high byte first. Where
    /// only the low byte finds no room, the high byte stays.
    pub open spec fn push_word(self, word: u16) -> (StackView, Result<(), ZError>) {
        let first = self.push_byte(high_byte(word));
        if first.1 is Ok {
            first.0.push_byte(low_byte(word))
        } else {
            first
        }
    }

    /// The stack after an attempt to pop a word, the low byte first, and the
    /// word. Where only the high byte is missing, the low byte is gone.
    pub open spec fn pop_word(self) -> (StackView, Result<u16, ZError>) {
        let first = self.pop_byte();
        match first.1 {
            Err(e) => (first.0, Err(e)),
            Ok(low) => {
                let second = first.0.pop_byte();
                match second.1 {
                    Err(e) => (second.0, Err(e)),
                    Ok(high) => (second.0, Ok((high as int * 0x100 + low as int) as u16)),
                }
            },
        }
    }

    /// The stack after an attempt to push a return address as two words, the
    /// high one first, of which the machine keeps 32 bits.
    pub open spec fn push_offset(self, addr: nat) -> (StackView, Result<(), ZError>) {
        let first = self.push_word(((addr / 0x1_0000) % 0x1_0000) as u16);
        if first.1 is Ok {
            first.0.push_word((addr % 0x1_0000) as u16)
        } else {
            first
        }
    }

    /// The stack after an attempt to push a frame for a call, and how the
    /// attempt ended: the frame needs room for its header and its locals.
    pub open spec fn push_frame(
        self,
        return_pc: nat,
        num_locals: u8,
        return_variable: ZVariable,
        operands: Seq<u16>,
    ) -> (StackView, Result<(), ZError>) {
        let frame = FrameView::for_call(return_pc, num_locals, return_variable, operands);
        if self.free() >= frame.size() {
            (StackView { frames: self.frames.push(frame), ..self }, Ok(()))
        } else {
            (self, Err(ZError::StackOverflow))
        }
    }

    /// The stack after an attempt to pop the frame of the current call, with
    /// all that is on its evaluation stack, and how the attempt ended.
    pub open spec fn pop_frame(self) -> (StackView, Result<(), ZError>) {
        if self.frames.len() >= 2 {
            (StackView { frames: self.frames.drop_last(), ..self }, Ok(()))
        } else {
            (self, Err(ZError::CannotPopBaseFrame))
        }
    }

    /// The value of a local of the current call.
    pub open spec fn read_local(self, var: ZVariable) -> Result<u16, ZError> {
        if !var.spec_is_local() {
            Err(ZError::ExpectedLocal)
        } else if var.spec_index().unwrap() >= self.top().locals.len() {
            Err(ZError::LocalIndexOutOfRange)
        } else {
            Ok(self.top().locals[var.spec_index().unwrap() as int])
        }
    }

    /// The stack after an attempt to set a local of the current call, and
    /// how the attempt ended.
    pub open spec fn write_local(self, var: ZVariable, val: u16) -> (StackView, Result<(), ZError>) {
        if !var.spec_is_local() {
            (self, Err(ZError::ExpectedLocal))
        } else if var.spec_index().unwrap() >= self.top().locals.len() {
            (self, Err(ZError::LocalIndexOutOfRange))
        } else {
            (
                self.with_top(
                    FrameView {
                        locals: self.top().locals.update(var.spec_index().unwrap() as int, val),
                        ..self.top()
                    },
                ),
                Ok(()),
            )
        }
    }
}

/// The frames start one after the other, each where the one before it ends.
pub proof fn lemma_offsets_grow(frames: Seq<FrameView>, i: int, j: int)
    requires
        0 <= i <= j,
    ensures
        0 <= offset_of(frames, i) <= offset_of(frames, j),
        i < j ==> offset_of(frames, i) + frames[i].size() <= offset_of(frames, j),
    decreases j,
{
    if i < j {
        lemma_offsets_grow(frames, i, j - 1);
    } else if j > 0 {
        lemma_offsets_grow(frames, i - 1, j - 1);
    }
}

/// Where a frame starts depends on the frames below it alone.
pub proof fn lemma_offset_of_prefix(a: Seq<FrameView>, b: Seq<FrameView>, n: int)
    requires
        forall|i: int| 0 <= i < n ==> a[i] == b[i],
    ensures
        offset_of(a, n) == offset_of(b, n),
    decreases n,
{
    if n > 0 {
        lemma_offset_of_prefix(a, b, n - 1);
    }
}

impl StackView {
    /// Replacing the frame of the current call leaves it where it was, and
    /// the stack as it should be if the new frame is and fits.
    pub proof fn lemma_with_top(self, frame: FrameView)
        requires
            self.wf(),
            frame.wf(),
            self.frame_pointer() + frame.size() <= self.capacity,
        ensures
            self.with_top(frame).frame_pointer() == self.frame_pointer(),
            self.with_top(frame).used() == self.frame_pointer() + frame.size(),
            self.with_top(frame).wf(),
    {
        let after = self.with_top(frame);
        lemma_offset_of_prefix(self.frames, after.frames, self.frames.len() - 1);
        assert forall|i: int| 0 <= i < after.frames.len() implies (#[trigger] after.frames[i]).wf() by {
            if i < self.frames.len() - 1 {
                assert(self.frames[i].wf());
            }
        }
    }

    /// Pushing and popping bytes and words leaves a stack as it should be.
    pub proof fn lemma_bytes_keep_wf(self, val: u8, word: u16, addr: nat)
        requires
            self.wf(),
        ensures
            self.push_byte(val).0.wf(),
            self.pop_byte().0.wf(),
            self.push_word(word).0.wf(),
            self.pop_word().0.wf(),
            self.push_offset(addr).0.wf(),
    {
        self.lemma_push_byte_keeps_wf(val);
        self.lemma_pop_byte_keeps_wf();
        self.lemma_push_byte_keeps_wf(high_byte(word));
        self.push_byte(high_byte(word)).0.lemma_push_byte_keeps_wf(low_byte(word));
        self.pop_byte().0.lemma_pop_byte_keeps_wf();
        let high = ((addr / 0x1_0000) % 0x1_0000) as u16;
        let low = (addr % 0x1_0000) as u16;
        let one = self.push_byte(high_byte(high)).0;
        self.lemma_push_byte_keeps_wf(high_byte(high));
        one.lemma_push_byte_keeps_wf(low_byte(high));
        let two = one.push_byte(low_byte(high)).0;
        two.lemma_push_byte_keeps_wf(high_byte(low));
        two.push_byte(high_byte(low)).0.lemma_push_byte_keeps_wf(low_byte(low));
    }

    /// Pushing a byte leaves a stack as it should be.
    proof fn lemma_push_byte_keeps_wf(self, val: u8)
        requires
            self.wf(),
        ensures
            self.push_byte(val).0.wf(),
    {
        assert(self.top().wf());
        if self.free() >= 1 {
            self.lemma_with_top(FrameView { eval: self.top().eval.push(val), ..self.top() });
        }
    }

    /// Popping a byte leaves a stack as it should be.
    proof fn lemma_pop_byte_keeps_wf(self)
        requires
            self.wf(),
        ensures
            self.pop_byte().0.wf(),
    {
        assert(self.top().wf());
        if self.top().eval.len() >= 1 {
            self.lemma_with_top(FrameView { eval: self.top().eval.drop_last(), ..self.top() });
        }
    }

    /// Calls, returns and writes to locals leave a stack as it should be.
    pub proof fn lemma_frames_keep_wf(
        self,
        return_pc: nat,
        num_locals: u8,
        return_variable: ZVariable,
        operands: Seq<u16>,
        var: ZVariable,
        val: u16,
    )
        requires
            self.wf(),
        ensures
            self.push_frame(return_pc, num_locals, return_variable, operands).0.wf(),
            self.pop_frame().0.wf(),
            self.write_local(var, val).0.wf(),
    {
        self.lemma_frame_needs_room(return_pc, num_locals, return_variable, operands);
        if self.frames.len() >= 2 {
            let popped = self.pop_frame().0;
            lemma_offset_of_prefix(self.frames, popped.frames, popped.frames.len() as int);
            assert forall|i: int| 0 <= i < popped.frames.len() implies (
            #[trigger] popped.frames[i]).wf() by {
                assert(self.frames[i].wf());
            }
        }
        assert(self.top().wf());
        if self.write_local(var, val).1 is Ok {
            self.lemma_with_top(
                FrameView {
                    locals: self.top().locals.update(var.spec_index().unwrap() as int, val),
                    ..self.top()
                },
            );
        }
    }

    /// The three indexes into the current frame are in order: the frame
    /// starts, its header and locals end where its evaluation stack starts,
    /// and that ends at the first free byte.
    pub proof fn lemma_indexes_in_order(self)
        requires
            self.wf(),
        ensures
            0 <= self.frame_pointer(),
            self.frame_pointer() + FRAME_HEADER_SIZE <= self.frame_base(),
            self.frame_base() + self.top().eval.len() == self.used(),
            self.used() <= self.capacity,
    {
        lemma_offsets_grow(self.frames, 0, self.frames.len() - 1);
    }

    /// The bottom frame cannot be popped, and the attempt changes nothing.
    pub proof fn lemma_base_frame_stays(self)
        requires
            self.frames.len() == 1,
        ensures
            self.pop_frame() == (self, Err::<(), ZError>(ZError::CannotPopBaseFrame)),
            StackView::initial(self.capacity).pop_frame().1 == Err::<(), ZError>(
                ZError::CannotPopBaseFrame,
            ),
    {
    }

    /// A frame is pushed exactly when there is room for its header and its
    /// locals, and then takes that room; otherwise nothing changes.
    pub proof fn lemma_frame_needs_room(
        self,
        return_pc: nat,
        num_locals: u8,
        return_variable: ZVariable,
        operands: Seq<u16>,
    )
        requires
            self.wf(),
        ensures
            ({
                let pushed = self.push_frame(return_pc, num_locals, return_variable, operands);
                let needed = FRAME_HEADER_SIZE + 2 * num_locals;
                &&& pushed.1 is Ok <==> self.used() + needed <= self.capacity
                &&& pushed.1 is Ok ==> pushed.0.used() == self.used() + needed && pushed.0.wf()
                &&& pushed.1 is Err ==> pushed == (self, Err::<(), ZError>(ZError::StackOverflow))
            }),
    {
        let frame = FrameView::for_call(return_pc, num_locals, return_variable, operands);
        let pushed = self.push_frame(return_pc, num_locals, return_variable, operands);
        if pushed.1 is Ok {
            lemma_offset_of_prefix(self.frames, pushed.0.frames, self.frames.len() as int);
            assert forall|i: int| 0 <= i < pushed.0.frames.len() implies (
            #[trigger] pushed.0.frames[i]).wf() by {
                if i < self.frames.len() {
                    assert(self.frames[i].wf());
                }
            }
        }
    }

    /// In the frame of a call that has just been made, the locals hold the
    /// operands as far as there are locals for them and zero after that,
    /// the evaluation stack is empty, and the return address and the return
    /// variable are those of the call.
    pub proof fn lemma_frame_of_call(
        self,
        return_pc: nat,
        num_locals: u8,
        return_variable: ZVariable,
        operands: Seq<u16>,
    )
        requires
            self.push_frame(return_pc, num_locals, return_variable, operands).1 is Ok,
        ensures
            ({
                let called = self.push_frame(return_pc, num_locals, return_variable, operands).0;
                &&& called.frames.len() == self.frames.len() + 1
                &&& called.top().return_pc == return_pc % RETURN_PC_LIMIT as nat
                &&& called.top().return_variable == return_variable
                &&& called.top().locals.len() == num_locals
                &&& called.top().eval.len() == 0
                &&& forall|lidx: u8|
                    lidx < num_locals && lidx <= MAX_LOCAL ==> #[trigger] called.read_local(
                        ZVariable::spec_local(lidx).unwrap(),
                    ) == Ok::<u16, ZError>(
                        if lidx < operands.len() {
                            operands[lidx as int]
                        } else {
                            0u16
                        },
                    )
                &&& called.pop_byte().1 == Err::<u8, ZError>(ZError::StackUnderflow)
            }),
    {
    }

    /// Returning from a call that has just been made leaves the stack as it
    /// was before the call.
    pub proof fn lemma_push_then_pop_frame(
        self,
        return_pc: nat,
        num_locals: u8,
        return_variable: ZVariable,
        operands: Seq<u16>,
    )
        requires
            self.wf(),
            self.push_frame(return_pc, num_locals, return_variable, operands).1 is Ok,
        ensures
            self.push_frame(return_pc, num_locals, return_variable, operands).0.pop_frame() == (
                self,
                Ok::<(), ZError>(()),
            ),
    {
        let frame = FrameView::for_call(return_pc, num_locals, return_variable, operands);
        assert(self.frames.push(frame).drop_last() =~= self.frames);
    }

    /// Returning from a call leaves the frames below as they are, whatever
    /// the call has done to its own frame.
    pub proof fn lemma_pop_frame_keeps_callers(self)
        requires
            self.frames.len() >= 2,
        ensures
            self.pop_frame().1 is Ok,
            self.pop_frame().0.frames.len() == self.frames.len() - 1,
            forall|i: int|
                0 <= i < self.frames.len() - 1 ==> #[trigger] self.pop_frame().0.frames[i]
                    == self.frames[i],
            self.pop_frame().0.top() == self.frames[self.frames.len() - 2],
    {
    }

    /// A byte that has just been pushed is the byte that is popped, and
    /// popping it leaves the stack as it was before.
    pub proof fn lemma_push_then_pop_byte(self, val: u8)
        requires
            self.wf(),
            self.push_byte(val).1 is Ok,
        ensures
            self.push_byte(val).0.pop_byte() == (self, Ok::<u8, ZError>(val)),
    {
        let pushed = self.push_byte(val).0;
        assert(pushed.top().eval.drop_last() =~= self.top().eval);
        assert(pushed.pop_byte().0.frames =~= self.frames);
    }

    /// A word that has just been pushed is the word that is popped, and
    /// popping it leaves the stack as it was before.
    pub proof fn lemma_push_then_pop_word(self, word: u16)
        requires
            self.wf(),
            self.push_word(word).1 is Ok,
        ensures
            self.push_word(word).0.pop_word() == (self, Ok::<u16, ZError>(word)),
    {
        lemma_split_word(word);
        let first = self.push_byte(high_byte(word)).0;
        let second = first.push_byte(low_byte(word)).0;
        assert(first.frames.len() == self.frames.len());
        assert(second.top().eval.drop_last() =~= first.top().eval);
        assert(second.pop_byte().0.frames =~= first.frames);
        assert(first.top().eval.drop_last() =~= self.top().eval);
        assert(first.pop_byte().0.frames =~= self.frames);
    }

    /// Evaluation-stack traffic does not disturb the locals: pushing or
    /// popping a byte leaves every local, the return address and the return
    /// variable of every frame as they were.
    pub proof fn lemma_bytes_keep_locals(self, val: u8, i: int)
        requires
            self.wf(),
            0 <= i < self.frames.len(),
        ensures
            self.push_byte(val).0.frames.len() == self.frames.len(),
            self.push_byte(val).0.frames[i].locals == self.frames[i].locals,
            self.push_byte(val).0.frames[i].return_pc == self.frames[i].return_pc,
            self.push_byte(val).0.frames[i].return_variable == self.frames[i].return_variable,
            self.pop_byte().0.frames.len() == self.frames.len(),
            self.pop_byte().0.frames[i].locals == self.frames[i].locals,
            self.pop_byte().0.frames[i].return_pc == self.frames[i].return_pc,
            self.pop_byte().0.frames[i].return_variable == self.frames[i].return_variable,
    {
    }

    /// A local that has just been written reads back as what was written,
    /// and every other local of the call as what it was.
    pub proof fn lemma_write_then_read_local(self, var: ZVariable, val: u16, other: ZVariable)
        requires
            self.wf(),
            self.write_local(var, val).1 is Ok,
        ensures
            self.write_local(var, val).0.read_local(var) == Ok::<u16, ZError>(val),
            other != var ==> self.write_local(var, val).0.read_local(other) == self.read_local(
                other,
            ),
            self.write_local(var, val).0.used() == self.used(),
    {
        let written = self.write_local(var, val).0;
        lemma_offset_of_prefix(self.frames, written.frames, self.frames.len() - 1);
    }
}

} // verus!
