use rszzy::addressing::{ByteAddress, ZOffset};
use rszzy::bytes;
use rszzy::constants::header_offset::{HIGH_MEMORY_MARK, START_PC, STATIC_MEMORY_START};
use rszzy::error::ZError;
use rszzy::header::Header;
use rszzy::machine::{Machine, MachineBuilder, ZMachine};
use rszzy::memory::ZMemory;
use rszzy::pc::PC;
use rszzy::processor::ZProcessor;
use rszzy::stack::ZStack;

fn story(version: u8, start_pc: u16) -> Vec<u8> {
    let mut v = vec![0; 0x400];
    bytes::byte_to_slice(&mut v, 0usize, version);
    bytes::word_to_slice(&mut v, STATIC_MEMORY_START, 0x100);
    bytes::word_to_slice(&mut v, HIGH_MEMORY_MARK, 0x200);
    bytes::word_to_slice(&mut v, START_PC, start_pc);
    v
}

#[test]
fn header_gives_the_start_of_execution() {
    let memory = ZMemory::from_bytes(story(3, 0x1234)).unwrap();
    let ByteAddress(addr) = Header::start_pc(&memory).unwrap();
    assert_eq!(0x1234, addr);
    assert_eq!(0x1234, usize::from(ZOffset::from(ByteAddress(addr))));
}

#[test]
fn program_counter_moves_on() {
    assert!(PC::default().is_zero());
    assert!(PC::at(ZOffset(0)).is_zero());
    let mut pc = PC::at(ZOffset::from(ByteAddress::raw(0x100)));
    assert!(!pc.is_zero());
    pc.add_assign(ZOffset(3));
    pc.add_assign(ZOffset::from(2u16));
    assert_eq!(0x105, usize::from(ZOffset::from(pc)));
    assert_eq!(0x10, usize::from(ZOffset(0x0c) + PC(4)));
}

#[test]
fn story_loads_and_runs() {
    let machine: ZMachine = Machine::from_bytes(story(5, 0x240)).unwrap();
    assert_eq!(Ok(()), machine.run());
}

#[test]
fn story_that_does_not_load_gives_no_machine() {
    assert_eq!(
        Some(ZError::UnsupportedVersion),
        Machine::from_bytes(story(2, 0x240)).err()
    );
    assert_eq!(Some(ZError::ReadOutOfBounds), Machine::from_bytes(vec![]).err());
    let mut bad = story(3, 0x240);
    bytes::word_to_slice(&mut bad, STATIC_MEMORY_START, 0x3f);
    assert_eq!(
        Some(ZError::DynamicMemoryTooSmall),
        Machine::from_bytes(bad).err()
    );
}

#[test]
fn machine_is_built_from_its_parts() {
    let memory = ZMemory::from_bytes(story(3, 0x240)).unwrap();
    let machine = MachineBuilder::new()
        .memory(memory)
        .stack(ZStack::default())
        .pc(PC::at(ZOffset(0x300)))
        .build();
    assert_eq!(Ok(()), machine.run());

    let memory = ZMemory::from_bytes(story(3, 0x240)).unwrap();
    let processor = ZProcessor::new(memory, PC::at(ZOffset(0x240)), ZStack::default());
    assert_eq!(Ok(()), processor.process());
}
