use tiny_chip8::chip8_core::TinyChip8;
use tiny_chip8::chip8_cpu::Chip8Cpu;
use tiny_chip8::constants::{CYCLE_INTERVAL, SYNC_INTERVAL};
use tiny_chip8::error::Chip8Error;
use tiny_chip8::machine::{CycleReport, LoopReport, Step};
use tiny_chip8::timeline::Timeline;

#[test]
fn intervals_are_sixty_cycles_a_second_and_a_faster_synchronization() {
    assert_eq!(CYCLE_INTERVAL, 16_667);
    assert_eq!(1_000_000 / CYCLE_INTERVAL, 59);
    assert_eq!(SYNC_INTERVAL, 8_000);
    assert!(SYNC_INTERVAL < CYCLE_INTERVAL);
}

#[test]
fn new_timeline_has_nothing_due() {
    let mut clock = Timeline::new();
    assert_eq!(clock, Timeline { cycle_clock: 0, sync_clock: 0 });
    assert_eq!(clock.idle_time(), 8_000);
    assert!(!clock.take_cycle());
    assert!(!clock.take_sync());
    assert_eq!(clock, Timeline { cycle_clock: 0, sync_clock: 0 });
}

#[test]
fn activities_come_due_after_their_interval() {
    let mut clock = Timeline::new();
    clock.advance(7_999);
    assert_eq!(clock.idle_time(), 1);
    assert!(!clock.take_sync());
    clock.advance(1);
    assert_eq!(clock.idle_time(), 0);
    assert!(clock.take_sync());
    assert!(!clock.take_sync());
    assert_eq!(clock, Timeline { cycle_clock: 8_000, sync_clock: 0 });
    assert_eq!(clock.idle_time(), 8_000);
    clock.advance(8_000);
    assert!(!clock.take_cycle());
    assert!(clock.take_sync());
    assert_eq!(clock.idle_time(), 667);
    clock.advance(667);
    assert!(clock.take_cycle());
    assert!(!clock.take_cycle());
    assert_eq!(clock, Timeline { cycle_clock: 0, sync_clock: 667 });
    assert_eq!(clock.idle_time(), 7_333);
}

#[test]
fn count_of_cycles_depends_on_the_sum_of_the_time_only() {
    let mut at_once = Timeline::new();
    at_once.advance(100_000);
    let mut in_pieces = Timeline::new();
    for piece in [1u64, 16_666, 3, 40_000, 43_330] {
        in_pieces.advance(piece);
    }
    assert_eq!(at_once, in_pieces);
    let mut cycles = 0;
    while at_once.take_cycle() {
        cycles += 1;
    }
    assert_eq!(cycles, 5);
    assert_eq!(at_once.cycle_clock, 100_000 - 5 * 16_667);
    let mut syncs = 0;
    while at_once.take_sync() {
        syncs += 1;
    }
    assert_eq!(syncs, 12);
    assert_eq!(at_once.sync_clock, 4_000);

    let mut jittery = Timeline::new();
    let mut cycles = 0;
    for piece in [1u64, 16_666, 3, 40_000, 43_330] {
        jittery.advance(piece);
        while jittery.take_cycle() {
            cycles += 1;
        }
    }
    assert_eq!(cycles, 5);
    assert_eq!(jittery.cycle_clock, 100_000 - 5 * 16_667);
}

#[test]
fn clocks_stop_at_the_largest_value() {
    let mut clock = Timeline { cycle_clock: u64::MAX - 5, sync_clock: 10 };
    clock.advance(100);
    assert_eq!(clock, Timeline { cycle_clock: u64::MAX, sync_clock: 110 });
    clock.advance(u64::MAX);
    assert_eq!(clock, Timeline { cycle_clock: u64::MAX, sync_clock: u64::MAX });
    assert_eq!(clock.idle_time(), 0);
}

#[test]
fn turn_with_nothing_due_changes_nothing_but_the_clocks() {
    let mut cpu = Chip8Cpu::start();
    cpu.load_game(&[0x60, 0x05]).unwrap();
    let mut clock = Timeline::new();
    let report = cpu.emulate(&mut clock, 5_000).unwrap();
    assert_eq!(report, LoopReport { cycle: None, sync: false });
    assert_eq!(clock, Timeline { cycle_clock: 5_000, sync_clock: 5_000 });
    assert_eq!(cpu.pc(), 0x200);
    assert_eq!(cpu.v()[0], 0);
}

#[test]
fn turn_runs_a_due_cycle_and_reports_a_due_synchronization() {
    let mut cpu = Chip8Cpu::start();
    cpu.load_game(&[0x60, 0x05, 0x70, 0x03]).unwrap();
    let mut clock = Timeline::new();
    let report = cpu.emulate(&mut clock, 8_000).unwrap();
    assert_eq!(report, LoopReport { cycle: None, sync: true });
    assert_eq!(clock, Timeline { cycle_clock: 8_000, sync_clock: 0 });
    let report = cpu.emulate(&mut clock, 8_667).unwrap();
    assert_eq!(
        report,
        LoopReport {
            cycle: Some(CycleReport { opcode: 0x6005, step: Step::Executed, beep: false }),
            sync: true,
        }
    );
    assert_eq!(clock, Timeline { cycle_clock: 0, sync_clock: 667 });
    assert_eq!(cpu.v()[0], 5);
    assert_eq!(cpu.pc(), 0x202);
}

#[test]
fn turn_runs_one_cycle_and_keeps_the_rest_due() {
    let mut cpu = Chip8Cpu::start();
    cpu.load_game(&[0x60, 0x05, 0x70, 0x03, 0x70, 0x03]).unwrap();
    let mut clock = Timeline::new();
    let report = cpu.emulate(&mut clock, 3 * 16_667).unwrap();
    assert!(report.cycle.is_some());
    assert!(report.sync);
    assert_eq!(cpu.pc(), 0x202);
    assert_eq!(clock.cycle_clock, 2 * 16_667);
    assert_eq!(clock.idle_time(), 0);
    cpu.emulate(&mut clock, 0).unwrap();
    cpu.emulate(&mut clock, 0).unwrap();
    assert_eq!(cpu.pc(), 0x206);
    assert_eq!(cpu.v()[0], 11);
    assert_eq!(clock.cycle_clock, 0);
    let report = cpu.emulate(&mut clock, 0).unwrap();
    assert_eq!(report.cycle, None);
    assert_eq!(cpu.pc(), 0x206);
}

#[test]
fn turn_reports_the_beep_of_its_cycle() {
    let mut cpu = Chip8Cpu::start();
    cpu.load_game(&[0x60, 0x01, 0xF0, 0x18]).unwrap();
    let mut clock = Timeline::new();
    let first = cpu.emulate(&mut clock, 16_667).unwrap();
    assert!(!first.cycle.unwrap().beep);
    let second = cpu.emulate(&mut clock, 16_667).unwrap();
    assert!(second.cycle.unwrap().beep);
    assert_eq!(cpu.sound_timer(), 0);
}

#[test]
fn failure_of_the_cycle_ends_the_turn_and_keeps_the_synchronization_due() {
    let mut cpu = Chip8Cpu::start();
    cpu.load_game(&[0x00, 0xEE]).unwrap();
    let mut clock = Timeline::new();
    assert_eq!(cpu.emulate(&mut clock, 20_000), Err(Chip8Error::StackUnderflow));
    assert_eq!(clock, Timeline { cycle_clock: 3_333, sync_clock: 20_000 });
    assert_eq!(cpu.pc(), 0x200);
    assert_eq!(cpu.emulate(&mut clock, 0), Ok(LoopReport { cycle: None, sync: true }));
}

#[test]
fn turn_reports_a_wait_for_a_key_and_the_cycle_resumes_with_the_key() {
    let mut cpu = Chip8Cpu::start();
    cpu.load_game(&[0xF3, 0x0A]).unwrap();
    let mut clock = Timeline::new();
    let report = cpu.emulate(&mut clock, 16_667).unwrap();
    assert_eq!(report.cycle.map(|c| c.step), Some(Step::AwaitKey));
    assert_eq!(cpu.pc(), 0x200);
    let resumed = cpu.cycle(Some(0x7)).unwrap();
    assert_eq!(resumed.step, Step::Executed);
    assert_eq!(cpu.v()[3], 0x7);
    assert_eq!(cpu.pc(), 0x202);
}

#[test]
fn emulator_starts_with_machine_at_power_on() {
    let emulator = TinyChip8::initialize();
    assert_eq!(emulator.cpu.pc(), 0x200);
    assert_eq!(emulator.cpu.memory()[0], 0xF0);
    assert_eq!(emulator.clock, Timeline { cycle_clock: 0, sync_clock: 0 });
}

#[test]
fn emulator_start_loads_the_program_and_restarts_the_timeline() {
    let mut emulator = TinyChip8::initialize();
    emulator.clock.advance(123);
    assert_eq!(emulator.start(&[0x60, 0x05, 0x70, 0x03]), Ok(()));
    assert_eq!(emulator.clock, Timeline { cycle_clock: 0, sync_clock: 0 });
    assert_eq!(&emulator.cpu.memory()[0x200..0x204], &[0x60, 0x05, 0x70, 0x03]);
    emulator.cpu.emulate(&mut emulator.clock, 16_667).unwrap();
    emulator.cpu.emulate(&mut emulator.clock, 16_667).unwrap();
    assert_eq!(emulator.cpu.v()[0], 8);
    assert_eq!(emulator.cpu.pc(), 0x204);
}

#[test]
fn emulator_start_refuses_a_program_that_is_too_large() {
    let mut emulator = TinyChip8::initialize();
    emulator.clock.advance(123);
    let before = *emulator.cpu.memory();
    let rom = vec![1u8; 3585];
    assert_eq!(emulator.start(&rom), Err("program is larger than 3584 bytes".to_string()));
    assert_eq!(emulator.cpu.memory(), &before);
    assert_eq!(emulator.clock, Timeline { cycle_clock: 123, sync_clock: 123 });
    assert_eq!(emulator.start(&rom[..3584]), Ok(()));
}

#[test]
fn failures_have_diagnostics() {
    assert_eq!(Chip8Error::LoadTooLarge.message(), "program is larger than 3584 bytes");
    assert_eq!(Chip8Error::StackOverflow.message(), "call stack overflow");
    assert_eq!(Chip8Error::StackUnderflow.message(), "call stack underflow");
}
