use rszzy::addressing::ZOffset;
use rszzy::bytes;
use rszzy::constants::stack::STACK_SIZE;
use rszzy::error::ZError;
use rszzy::stack::ZStack;
use rszzy::model::stack::StackView;
use rszzy::traits::Stack;
use rszzy::variable::ZVariable;

// These values follow from the layout of a frame.
const INITIAL_STACK_LEN: usize = 8;
const INITIAL_STACK: [u8; INITIAL_STACK_LEN] = [
    // 2 bytes: Initial frame pointer (4096 - one past the stack size).
    0x10, 0x00, //
    // 4 bytes: Initial return PC (0x00 - cannot return from main)
    0x00, 0x00, 0x00, 0x00, //
    // Variable for return value (ZVariable::Stack.into()
    0x00, //
    // 0 locals
    0x00, //
];

/// Return a slice of the stack, skipping the INITIAL_STACK component.
fn stack_slice_after_initial_bytes(stack: &ZStack) -> &[u8] {
    &stack.as_bytes()[INITIAL_STACK_LEN..stack.sp()]
}

#[test]
fn test_new_stack() {
    // The initial stack should be properly formed.  See INITIAL_STACK.
    let stack = ZStack::default();

    assert_eq!(INITIAL_STACK, stack.as_bytes()[0..8]);
    assert_eq!(0, stack.fp());

    // Each frame is 8 bytes, so sp/s0 point to next byte.
    assert_eq!(8, stack.sp());
    assert_eq!(8, stack.s0());

    // FP should point to invalid value (one past end of the stack array).
    let fp = usize::from(bytes::word_from_slice(stack.as_bytes(), 0usize));
    assert_eq!(STACK_SIZE, fp);

    // return_pc should be 0
    let return_pc = bytes::long_word_from_slice(stack.as_bytes(), 2usize);
    assert_eq!(0, return_pc);

    // return value is Stack (0x00)
    assert_eq!(u8::from(ZVariable::stack()), stack.as_bytes()[6]);

    // and there are no locals.
    assert_eq!(0, stack.as_bytes()[7]);
}

#[test]
fn test_push_pop_byte() {
    let mut stack = ZStack::default();

    let starting_sp = stack.sp();

    stack.push_byte(0x12).unwrap();
    stack.push_byte(0x34).unwrap();
    stack.push_byte(0x56).unwrap();

    assert_eq!(
        [0x12u8, 0x34, 0x56],
        stack_slice_after_initial_bytes(&stack)
    );

    assert_eq!(0x56, stack.pop_byte().unwrap());
    assert_eq!([0x12u8, 0x34], stack_slice_after_initial_bytes(&stack));

    assert_eq!(0x34, stack.pop_byte().unwrap());
    assert_eq!([0x12u8], stack_slice_after_initial_bytes(&stack));
    assert_eq!(0x12, stack.pop_byte().unwrap());
    assert_eq!([0u8; 0], stack_slice_after_initial_bytes(&stack));

    assert_eq!(stack.sp(), starting_sp);
}

// idx is a pointer to a frame.
// returns the idx to the previous frame
fn show_frame(stack: &ZStack, idx: u16) -> (String, u16) {
    let fp = bytes::word_from_slice(stack.as_bytes(), stack.fp());
    let addr = bytes::long_word_from_slice(stack.as_bytes(), stack.fp() + 2);
    let return_var = bytes::byte_from_slice(stack.as_bytes(), stack.fp() + 6);
    let num_locals = bytes::byte_from_slice(stack.as_bytes(), stack.fp() + 7);
    (
        format!(
            "Frame at:{:x}, fp:{:x}, addr:{:x}, ret:{:x}, locals:{:x}",
            idx, fp, addr, return_var, num_locals
        ),
        fp,
    )
}

#[test]
fn test_show_frame() {
    let mut stack = ZStack::default();
    // Yes, I'm testing a testing function.
    assert_eq!(
        (
            "Frame at:0, fp:1000, addr:0, ret:0, locals:0".into(),
            0x1000
        ),
        show_frame(&stack, 0)
    );

    let frame_1_fp = stack.sp() as u16;

    stack
        .push_frame(ZOffset::from(0x10203040usize), 5, ZVariable::stack(), &[])
        .unwrap();
    assert_eq!(
        ("Frame at:8, fp:0, addr:10203040, ret:0, locals:5".into(), 0),
        show_frame(&stack, frame_1_fp)
    );

    let frame_2_fp = stack.sp() as u16;

    stack
        .push_frame(
            ZOffset::from(0x22446680usize),
            2,
            ZVariable::global(0xef).unwrap(),
            &[0x1357],
        )
        .unwrap();
    assert_eq!(
        (
            "Frame at:1a, fp:8, addr:22446680, ret:ff, locals:2".into(),
            8
        ),
        show_frame(&stack, frame_2_fp)
    );
}

#[test]
fn test_push_offset() {
    let mut stack = ZStack::default();

    let offset = ZOffset::from(0xdeafdeedusize);
    stack.push_offset(offset).unwrap();

    assert_eq!(
        [0xde, 0xaf, 0xde, 0xed],
        stack_slice_after_initial_bytes(&stack)
    );
}

#[test]
fn test_push_pop_frame() {
    let mut stack = ZStack::default();

    // Push some values for testing.
    stack.push_byte(0x12).unwrap();
    stack.push_byte(0x34).unwrap();
    stack.push_byte(0x56).unwrap();

    let saved_sp1 = stack.sp();
    let saved_frame_base1 = stack.s0();
    let saved_fp1 = stack.fp();

    stack
        .push_frame(
            ZOffset::from(0xdeafd00dusize),
            5,
            ZVariable::global(3).unwrap(),
            &[34, 38],
        )
        .unwrap();

    let saved_sp2 = stack.sp();
    let saved_frame_base2 = stack.s0();
    let saved_fp2 = stack.fp();

    stack
        .push_frame(
            ZOffset::from(0xbabef00dusize),
            7,
            ZVariable::local(5).unwrap(),
            &[1, 3, 5],
        )
        .unwrap();

    assert_eq!(saved_fp2, stack.saved_fp());
    assert_eq!(0xbabef00d, stack.return_pc());
    assert_eq!(ZVariable::local(5).unwrap(), stack.return_variable());
    assert_eq!(7, stack.num_locals());
    assert_eq!(1, stack.read_local(ZVariable::local(0).unwrap()).unwrap());
    assert_eq!(3, stack.read_local(ZVariable::local(1).unwrap()).unwrap());
    assert_eq!(5, stack.read_local(ZVariable::local(2).unwrap()).unwrap());
    assert_eq!(0, stack.read_local(ZVariable::local(3).unwrap()).unwrap());
    assert_eq!(0, stack.read_local(ZVariable::local(4).unwrap()).unwrap());
    assert_eq!(0, stack.read_local(ZVariable::local(5).unwrap()).unwrap());
    assert_eq!(0, stack.read_local(ZVariable::local(6).unwrap()).unwrap());

    stack.pop_frame().unwrap();

    assert_eq!(saved_sp2, stack.sp());
    assert_eq!(saved_frame_base2, stack.s0());
    assert_eq!(saved_fp2, stack.fp());
    assert_eq!(saved_fp1, stack.saved_fp());
    assert_eq!(0xdeafd00d, stack.return_pc());
    assert_eq!(ZVariable::global(3).unwrap(), stack.return_variable());
    assert_eq!(5, stack.num_locals());
    assert_eq!(34, stack.read_local(ZVariable::local(0).unwrap()).unwrap());
    assert_eq!(38, stack.read_local(ZVariable::local(1).unwrap()).unwrap());
    assert_eq!(0, stack.read_local(ZVariable::local(2).unwrap()).unwrap());
    assert_eq!(0, stack.read_local(ZVariable::local(3).unwrap()).unwrap());
    assert_eq!(0, stack.read_local(ZVariable::local(4).unwrap()).unwrap());

    stack.pop_frame().unwrap();

    assert_eq!(saved_sp1, stack.sp());
    assert_eq!(saved_frame_base1, stack.s0());
    assert_eq!(saved_fp1, stack.fp());
    assert_eq!(0x56, stack.pop_byte().unwrap());
    assert_eq!(0x34, stack.pop_byte().unwrap());
    assert_eq!(0x12, stack.pop_byte().unwrap());
}

#[test]
fn test_push_too_many_operands() {
    let mut stack = ZStack::default();

    stack
        .push_frame(
            ZOffset::from(0xbabef00dusize),
            2,
            ZVariable::stack(),
            &[11, 24, 36, 48],
        )
        .unwrap();

    assert_eq!(2, stack.num_locals());
    assert_eq!(11, stack.read_local(ZVariable::local(0).unwrap()).unwrap());
    assert_eq!(24, stack.read_local(ZVariable::local(1).unwrap()).unwrap());

    // only the header and the two locals were pushed
    assert_eq!(8 + 8 + 2 * 2, stack.sp());
    assert_eq!(stack.sp(), stack.s0());
    assert_eq!(
        Err(ZError::LocalIndexOutOfRange),
        stack.read_local(ZVariable::local(2).unwrap())
    );
}

#[test]
fn test_local_range_check() {
    let mut stack = ZStack::default();

    stack
        .push_frame(ZOffset::from(0xbabef00dusize), 1, ZVariable::stack(), &[22])
        .unwrap();

    assert_eq!(22, stack.read_local(ZVariable::local(0).unwrap()).unwrap());
    assert!(stack.read_local(ZVariable::local(1).unwrap()).is_err());
}

#[test]
fn test_pop_missing_stack_frame() {
    let mut stack = ZStack::default();

    assert!(stack.pop_frame().is_err());
}

#[test]
fn test_stack_frame_overflow() {
    let mut stack = ZStack::default();

    // 170 stack frames if an many as fit on the current-sized frame.
    for _ in 0..170 {
        stack
            .push_frame(ZOffset::from(0x1000usize), 8, ZVariable::stack(), &[])
            .unwrap();
    }

    assert!(stack
        .push_frame(ZOffset::from(0x2000usize), 8, ZVariable::stack(), &[])
        .is_err());
}

#[derive(Default)]
pub struct TestStack {
    pub vec: Vec<u8>,
}

impl Stack for TestStack {
    // The three ghost items of the trait: nothing that runs calls them.
    fn model(&self) -> StackView {
        unreachable!()
    }

    fn wf(&self) -> bool {
        unreachable!()
    }

    fn lemma_model_wf(&self) {
        unreachable!()
    }

    fn push_byte(&mut self, val: u8) -> Result<(), ZError> {
        self.vec.push(val);
        Ok(())
    }

    fn pop_byte(&mut self) -> Result<u8, ZError> {
        Ok(self.vec.pop().unwrap())
    }

    fn push_frame(
        &mut self,
        _return_pc: ZOffset,
        _num_locals: u8,
        _return_var: ZVariable,
        _operands: &[u16],
    ) -> Result<(), ZError> {
        unreachable!()
    }

    fn pop_frame(&mut self) -> Result<(), ZError> {
        unreachable!()
    }

    fn read_local(&self, _l: ZVariable) -> Result<u16, ZError> {
        unreachable!()
    }

    fn write_local(&mut self, _l: ZVariable, _val: u16) -> Result<(), ZError> {
        unreachable!()
    }

    fn return_pc(&self) -> usize {
        unreachable!()
    }

    fn return_variable(&self) -> ZVariable {
        unreachable!()
    }
}

#[test]
fn pushing_popping_words() {
    let mut stack = TestStack::default();

    stack.push_word(0x1234).unwrap();
    stack.push_word(0x5678).unwrap();

    assert_eq!(vec![0x12, 0x34, 0x56, 0x78], stack.vec);

    assert_eq!(0x5678, stack.pop_word().unwrap());
    assert_eq!(0x1234, stack.pop_word().unwrap());
}

#[test]
fn popping_the_base_frame_fails_and_changes_nothing() {
    let mut stack = ZStack::default();
    stack.push_byte(7).unwrap();
    assert_eq!(Err(ZError::CannotPopBaseFrame), stack.pop_frame());
    assert_eq!(9, stack.sp());
    assert_eq!(8, stack.s0());
    assert_eq!(0, stack.fp());
    assert_eq!(STACK_SIZE, stack.saved_fp());
    assert_eq!(Ok(7), stack.pop_byte());
}

#[test]
fn capacity_boundary_is_exact() {
    let mut stack = ZStack::default();
    for n in 0..170 {
        assert_eq!(8 + 24 * n, stack.sp());
        assert_eq!(
            Ok(()),
            stack.push_frame(ZOffset(0x1000), 8, ZVariable::stack(), &[])
        );
    }
    assert_eq!(4088, stack.sp());
    // a frame of 8 locals needs 24 bytes, and 8 are left
    assert_eq!(
        Err(ZError::StackOverflow),
        stack.push_frame(ZOffset(0x2000), 8, ZVariable::stack(), &[])
    );
    // the failed push has changed nothing
    assert_eq!(4088, stack.sp());
    assert_eq!(4088 - 24, stack.fp());
    assert_eq!(0x1000, stack.return_pc());
    // a frame without locals needs 8 bytes and just fits
    assert_eq!(
        Err(ZError::StackOverflow),
        stack.push_frame(ZOffset(0x2000), 1, ZVariable::stack(), &[])
    );
    assert_eq!(
        Ok(()),
        stack.push_frame(ZOffset(0x2000), 0, ZVariable::stack(), &[9])
    );
    assert_eq!(STACK_SIZE, stack.sp());
    assert_eq!(Err(ZError::StackOverflow), stack.push_byte(1));
    assert_eq!(Err(ZError::StackOverflow), stack.push_word(1));
    assert_eq!(Err(ZError::StackUnderflow), stack.pop_byte());
}

#[test]
fn evaluation_stack_is_empty_below_the_frame_base() {
    let mut stack = ZStack::default();
    assert_eq!(Err(ZError::StackUnderflow), stack.pop_byte());
    assert_eq!(Err(ZError::StackUnderflow), stack.pop_word());
    stack.push_byte(1).unwrap();
    stack
        .push_frame(ZOffset(0), 3, ZVariable::stack(), &[])
        .unwrap();
    // the byte below belongs to the caller
    assert_eq!(Err(ZError::StackUnderflow), stack.pop_byte());
    stack.push_byte(2).unwrap();
    // a word needs two bytes; the one that was there is taken all the same
    assert_eq!(Err(ZError::StackUnderflow), stack.pop_word());
    assert_eq!(Err(ZError::StackUnderflow), stack.pop_byte());
    stack.pop_frame().unwrap();
    assert_eq!(Ok(1), stack.pop_byte());
}

#[test]
fn words_go_on_and_off_the_stack_high_byte_first() {
    let mut stack = ZStack::default();
    stack.push_word(0x1234).unwrap();
    stack.push_word(0xfffe).unwrap();
    assert_eq!(
        [0x12, 0x34, 0xff, 0xfe],
        stack_slice_after_initial_bytes(&stack)
    );
    assert_eq!(Ok(0xfffe), stack.pop_word());
    assert_eq!(Ok(0x34), stack.pop_byte());
    assert_eq!(Ok(0x12), stack.pop_byte());
}

#[test]
fn locals_are_written_and_read_in_the_current_frame_only() {
    let mut stack = ZStack::default();
    stack
        .push_frame(ZOffset(1), 3, ZVariable::stack(), &[10, 20, 30])
        .unwrap();
    stack
        .push_frame(ZOffset(2), 2, ZVariable::stack(), &[])
        .unwrap();
    let l1 = ZVariable::local(1).unwrap();
    assert_eq!(Ok(()), stack.write_local(l1, 0xbeef));
    stack.push_word(0x7777).unwrap();
    assert_eq!(Ok(0xbeef), stack.read_local(l1));
    assert_eq!(Ok(0), stack.read_local(ZVariable::local(0).unwrap()));
    assert_eq!(
        Err(ZError::LocalIndexOutOfRange),
        stack.write_local(ZVariable::local(2).unwrap(), 1)
    );
    assert_eq!(
        Err(ZError::LocalIndexOutOfRange),
        stack.read_local(ZVariable::local(2).unwrap())
    );
    assert_eq!(Ok(0x7777), stack.pop_word());
    stack.pop_frame().unwrap();
    assert_eq!(Ok(20), stack.read_local(l1));
    assert_eq!(Ok(30), stack.read_local(ZVariable::local(2).unwrap()));
}

#[test]
fn only_locals_name_a_local() {
    let mut stack = ZStack::default();
    stack
        .push_frame(ZOffset(1), 3, ZVariable::stack(), &[10, 20, 30])
        .unwrap();
    assert_eq!(Err(ZError::ExpectedLocal), stack.read_local(ZVariable::stack()));
    assert_eq!(
        Err(ZError::ExpectedLocal),
        stack.read_local(ZVariable::global(0).unwrap())
    );
    assert_eq!(
        Err(ZError::ExpectedLocal),
        stack.write_local(ZVariable::stack(), 5)
    );
    assert_eq!(
        Err(ZError::ExpectedLocal),
        stack.write_local(ZVariable::global(1).unwrap(), 5)
    );
    // the base frame has no locals at all
    stack.pop_frame().unwrap();
    assert_eq!(
        Err(ZError::LocalIndexOutOfRange),
        stack.read_local(ZVariable::local(0).unwrap())
    );
}

#[test]
fn frames_may_hold_more_locals_than_variables_name() {
    let mut stack = ZStack::default();
    let operands: Vec<u16> = (1..=20).collect();
    stack
        .push_frame(ZOffset(0x1_0000_0001), 18, ZVariable::stack(), &operands)
        .unwrap();
    assert_eq!(18, stack.num_locals());
    assert_eq!(8 + 8 + 36, stack.sp());
    assert_eq!(Ok(15), stack.read_local(ZVariable::local(14).unwrap()));
    // operand 18 went into the last local, which lies just below the top
    assert_eq!(18, bytes::word_from_slice(stack.as_bytes(), stack.sp() - 2));
    // a return address keeps its low 32 bits
    assert_eq!(1, stack.return_pc());
}
