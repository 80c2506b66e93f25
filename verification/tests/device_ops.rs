use mcp23017::device::{
    GPINTENA, GPIOA, GPIOB, GPPUA, GPPUB, INTCAPA, INTCONA, DEFVALA, INTFA, INTFB, IOCON, IODIRA,
    IODIRB, OLATA,
};
use mcp23017::pin::{Bank, Compare, Feature, Mode, Pin, State};
use mcp23017::transport::{Cmd, Error, Progress, Reply};
use mcp23017::MCP23017;

fn pin(i: u8) -> Pin {
    Pin::new(i).unwrap()
}

fn ok(value: u8) -> Reply {
    Reply { ok: true, value }
}

fn fail() -> Reply {
    Reply { ok: false, value: 0 }
}

fn oks(n: usize, value: u8) -> Vec<Reply> {
    vec![ok(value); n]
}

fn device(direction: u16) -> MCP23017 {
    MCP23017 { direction, mirrored: Feature::Off }
}

fn reads_in(cmds: &[Cmd]) -> usize {
    cmds.iter().filter(|c| matches!(c, Cmd::ReadReg(_))).count()
}

fn writes_in(cmds: &[Cmd]) -> usize {
    cmds.iter().filter(|c| matches!(c, Cmd::WriteReg(_, _))).count()
}

#[test]
fn change_bit_sets_and_clears_one_bit() {
    let p = pin(2);
    assert_eq!(MCP23017::change_bit(0x00, &p, true), 0x04);
    assert_eq!(MCP23017::change_bit(0xFF, &p, false), 0xFB);
    assert_eq!(MCP23017::change_bit(0x51, &p, true), 0x55);
    assert_eq!(MCP23017::change_bit(0x55, &p, false), 0x51);
}

#[test]
fn change_bit_is_idempotent() {
    for i in 0u8..8 {
        let p = pin(i);
        for byte in [0x00u8, 0x5A, 0xFF] {
            let set_once = MCP23017::change_bit(byte, &p, true);
            assert_eq!(MCP23017::change_bit(set_once, &p, true), set_once);
            let clear_once = MCP23017::change_bit(byte, &p, false);
            assert_eq!(MCP23017::change_bit(clear_once, &p, false), clear_once);
        }
    }
}

#[test]
fn known_current_issues_zero_reads_and_one_write() {
    let dev = device(0xFFFF);
    let (cmds, progress) =
        dev.read_and_change_pin(GPIOA, &pin(1), true, Some(0x10), &oks(1, 0));
    assert_eq!(cmds, vec![Cmd::WriteReg(GPIOA, 0x12)]);
    assert_eq!(reads_in(&cmds), 0);
    assert_eq!(writes_in(&cmds), 1);
    assert_eq!(progress, Progress::Complete(Ok(0x12)));
}

#[test]
fn unknown_current_issues_one_read_then_one_write() {
    let dev = device(0xFFFF);
    let (cmds, progress) =
        dev.read_and_change_pin(GPIOA, &pin(1), true, None, &vec![ok(0x10), ok(0)]);
    assert_eq!(cmds, vec![Cmd::ReadReg(GPIOA), Cmd::WriteReg(GPIOA, 0x12)]);
    assert_eq!(progress, Progress::Complete(Ok(0x12)));
}

#[test]
fn construct_resets_and_caches_all_input_direction() {
    let (cmds, progress) = MCP23017::new(&oks(17, 0xFF));
    assert_eq!(cmds.len(), 17);
    assert_eq!(cmds[0], Cmd::ReadReg(IODIRA));
    assert_eq!(cmds[1], Cmd::ReadReg(IODIRB));
    match progress {
        Progress::Complete(Ok(dev)) => {
            assert_eq!(dev.direction, 0xFFFF);
            assert!(matches!(dev.mirrored, Feature::Off));
        }
        other => panic!("unexpected outcome: {:?}", other),
    }
}

#[test]
fn construct_is_driven_to_completion_incrementally() {
    // Feed the replies one at a time, as a bus runner would.
    let mut replies: Vec<Reply> = Vec::new();
    loop {
        let (cmds, progress) = MCP23017::new(&replies);
        match progress {
            Progress::Pending => {
                assert_eq!(cmds.len(), replies.len() + 1);
                replies.push(ok(0xFF));
            }
            Progress::Complete(Ok(dev)) => {
                assert_eq!(replies.len(), 17);
                assert_eq!(dev.direction, 0xFFFF);
                break;
            }
            Progress::Complete(Err(e)) => panic!("construction failed: {:?}", e),
        }
    }
}

#[test]
fn pin_mode_clears_bit_three_of_all_input_word() {
    let mut dev = device(0xFFFF);
    let (cmds, progress) = dev.pin_mode(&pin(3), Mode::Output, &vec![ok(0xFF), ok(0)]);
    assert_eq!(cmds, vec![Cmd::ReadReg(IODIRA), Cmd::WriteReg(IODIRA, 0xF7)]);
    assert_eq!(reads_in(&cmds), 1);
    assert_eq!(writes_in(&cmds), 1);
    assert_eq!(progress, Progress::Complete(Ok(0xFFF7)));
    assert_eq!(dev.direction, 0xFFF7);
}

#[test]
fn pin_mode_on_bank_b_touches_iodirb() {
    let mut dev = device(0x0000);
    let (cmds, progress) = dev.pin_mode(&pin(9), Mode::Input, &vec![ok(0x00), ok(0)]);
    assert_eq!(cmds, vec![Cmd::ReadReg(IODIRB), Cmd::WriteReg(IODIRB, 0x02)]);
    assert_eq!(progress, Progress::Complete(Ok(0x0200)));
    assert_eq!(dev.direction, 0x0200);
}

#[test]
fn pin_mode_failure_leaves_the_cache_alone() {
    let mut dev = device(0xFFFF);
    let (cmds, progress) = dev.pin_mode(&pin(3), Mode::Output, &vec![fail()]);
    assert_eq!(cmds, vec![Cmd::ReadReg(IODIRA)]);
    assert_eq!(progress, Progress::Complete(Err(Error::Transport)));
    assert_eq!(dev.direction, 0xFFFF);
}

#[test]
fn pull_up_returns_the_byte_shifted_into_its_bank_half() {
    let dev = device(0xFFFF);
    let (cmds, progress) = dev.pull_up(&pin(2), State::High, &vec![ok(0x00), ok(0)]);
    assert_eq!(cmds, vec![Cmd::ReadReg(GPPUA), Cmd::WriteReg(GPPUA, 0x04)]);
    assert_eq!(progress, Progress::Complete(Ok(0x0004)));

    let (cmds_b, progress_b) = dev.pull_up(&pin(10), State::High, &vec![ok(0x00), ok(0)]);
    assert_eq!(cmds_b, vec![Cmd::ReadReg(GPPUB), Cmd::WriteReg(GPPUB, 0x04)]);
    assert_eq!(progress_b, Progress::Complete(Ok(0x0400)));
}

#[test]
fn pull_up_propagates_a_transport_fault() {
    let dev = device(0xFFFF);
    let (_, progress) = dev.pull_up(&pin(2), State::High, &vec![fail()]);
    assert_eq!(progress, Progress::Complete(Err(Error::Transport)));
}

#[test]
fn output_rejects_a_pin_recorded_as_input() {
    // Direction bit set (input): the guard refuses the call and no command
    // is issued.
    let dev = device(0xFFFF);
    let (cmds, progress) = dev.output(&pin(4), State::High, &Vec::new());
    assert!(cmds.is_empty());
    assert_eq!(progress, Progress::Complete(Err(Error::WrongMode(pin(4)))));
}

#[test]
fn output_reads_the_latch_then_writes_gpio() {
    let dev = device(0x0000);
    let (cmds, progress) = dev.output(&pin(4), State::High, &vec![ok(0x00), ok(0)]);
    assert_eq!(cmds, vec![Cmd::ReadReg(OLATA), Cmd::WriteReg(GPIOA, 0x10)]);
    assert_eq!(progress, Progress::Complete(Ok(0x10)));
}

#[test]
fn output_tolerates_a_failed_latch_read() {
    // The latch read fails; the read-modify-write falls back to reading
    // the GPIO register itself.
    let dev = device(0x0000);
    let (cmds, progress) = dev.output(&pin(4), State::High, &vec![fail(), ok(0x01), ok(0)]);
    assert_eq!(
        cmds,
        vec![Cmd::ReadReg(OLATA), Cmd::ReadReg(GPIOA), Cmd::WriteReg(GPIOA, 0x11)]
    );
    assert_eq!(progress, Progress::Complete(Ok(0x11)));
}

#[test]
fn input_rejects_a_pin_not_recorded_as_input() {
    let dev = device(0x0000);
    let (cmds, progress) = dev.input(&pin(5), &Vec::new());
    assert!(cmds.is_empty());
    assert_eq!(progress, Progress::Complete(Err(Error::WrongMode(pin(5)))));
}

#[test]
fn input_extracts_the_pin_bit_of_gpio() {
    let dev = device(0xFFFF);
    let (cmds, progress) = dev.input(&pin(5), &vec![ok(0x20)]);
    assert_eq!(cmds, vec![Cmd::ReadReg(GPIOA)]);
    assert_eq!(progress, Progress::Complete(Ok(State::High)));
    let (_, low) = dev.input(&pin(5), &vec![ok(0xDF)]);
    assert_eq!(low, Progress::Complete(Ok(State::Low)));
}

#[test]
fn current_val_skips_the_mode_guard() {
    let dev = device(0x0000);
    let (cmds, progress) = dev.current_val(&pin(13), &vec![ok(0x20)]);
    assert_eq!(cmds, vec![Cmd::ReadReg(GPIOB)]);
    assert_eq!(progress, Progress::Complete(Ok(State::High)));
}

#[test]
fn config_system_interrupt_sets_mirror_and_polarity_bits() {
    let mut dev = device(0x0000);
    let (cmds, progress) =
        dev.config_system_interrupt(Feature::On, State::High, &vec![ok(0x00), ok(0)]);
    // Mirror is bit 6 and polarity bit 1 of the shared register.
    assert_eq!(cmds, vec![Cmd::ReadReg(IOCON), Cmd::WriteReg(IOCON, 0x42)]);
    assert_eq!(progress, Progress::Complete(Ok(())));
    assert!(matches!(dev.mirrored, Feature::On));
}

#[test]
fn config_system_interrupt_failure_leaves_the_mirror_cache_alone() {
    let mut dev = device(0x0000);
    let (_, progress) = dev.config_system_interrupt(Feature::On, State::Low, &vec![ok(0x42), fail()]);
    assert_eq!(progress, Progress::Complete(Err(Error::Transport)));
    assert!(matches!(dev.mirrored, Feature::Off));
}

#[test]
fn config_pin_interrupt_rejects_a_pin_recorded_as_output() {
    let dev = device(0x0000);
    let (cmds, progress) =
        dev.config_pin_interrupt(&pin(3), Feature::On, Compare::Default, None, &Vec::new());
    assert!(cmds.is_empty());
    assert_eq!(progress, Progress::Complete(Err(Error::WrongMode(pin(3)))));
}

#[test]
fn config_pin_interrupt_runs_three_register_writes() {
    let dev = device(0xFFFF);
    let (cmds, progress) = dev.config_pin_interrupt(
        &pin(3),
        Feature::On,
        Compare::Default,
        None,
        &oks(6, 0x00),
    );
    assert_eq!(
        cmds,
        vec![
            Cmd::ReadReg(GPINTENA),
            Cmd::WriteReg(GPINTENA, 0x08),
            Cmd::ReadReg(INTCONA),
            Cmd::WriteReg(INTCONA, 0x08),
            Cmd::ReadReg(DEFVALA),
            Cmd::WriteReg(DEFVALA, 0x00),
        ]
    );
    assert_eq!(progress, Progress::Complete(Ok(())));
}

#[test]
fn config_pin_interrupt_stops_at_the_first_failing_register() {
    let dev = device(0xFFFF);
    let (cmds, progress) = dev.config_pin_interrupt(
        &pin(3),
        Feature::On,
        Compare::Previous,
        Some(State::High),
        &vec![ok(0x00), ok(0), fail()],
    );
    assert_eq!(cmds.len(), 3);
    assert_eq!(cmds[2], Cmd::ReadReg(INTCONA));
    assert_eq!(progress, Progress::Complete(Err(Error::Transport)));
}

#[test]
fn interrupt_register_reports_the_fired_pin_and_its_level() {
    let dev = device(0xFFFF);
    let (cmds, progress) =
        dev.read_interrupt_register(Bank::A, &vec![ok(0x04), ok(0x04)]);
    assert_eq!(cmds, vec![Cmd::ReadReg(INTFA), Cmd::ReadReg(INTCAPA)]);
    match progress {
        Progress::Complete(Ok(Some((p, level)))) => {
            assert_eq!(p, pin(2));
            assert!(matches!(level, State::High));
        }
        other => panic!("unexpected outcome: {:?}", other),
    }
}

#[test]
fn interrupt_register_reports_nothing_when_no_flag_is_set() {
    let dev = device(0xFFFF);
    let (cmds, progress) = dev.read_interrupt_register(Bank::A, &vec![ok(0x00)]);
    assert_eq!(cmds, vec![Cmd::ReadReg(INTFA)]);
    assert_eq!(progress, Progress::Complete(Ok(None)));
}

#[test]
fn interrupt_register_reports_only_the_highest_fired_pin() {
    let dev = device(0xFFFF);
    let (_, progress) = dev.read_interrupt_register(Bank::A, &vec![ok(0x06), ok(0x04)]);
    match progress {
        Progress::Complete(Ok(Some((p, level)))) => {
            assert_eq!(p, pin(2));
            assert!(matches!(level, State::High));
        }
        other => panic!("unexpected outcome: {:?}", other),
    }
}

#[test]
fn read_interrupt_without_mirroring_reads_only_the_requested_bank() {
    let dev = device(0xFFFF);
    let (cmds, progress) = dev.read_interrupt(Bank::B, &vec![ok(0x00)]);
    assert_eq!(cmds, vec![Cmd::ReadReg(INTFB)]);
    assert_eq!(progress, Progress::Complete(Ok(None)));
}

#[test]
fn read_interrupt_with_mirroring_falls_back_to_bank_b() {
    let dev = MCP23017 { direction: 0xFFFF, mirrored: Feature::On };
    let (cmds, progress) = dev.read_interrupt(Bank::A, &vec![ok(0x00), ok(0x80), ok(0xFF)]);
    assert_eq!(
        cmds,
        vec![Cmd::ReadReg(INTFA), Cmd::ReadReg(INTFB), Cmd::ReadReg(mcp23017::device::INTCAPB)]
    );
    match progress {
        Progress::Complete(Ok(Some((p, level)))) => {
            // The fired bit is reported as a bank A pin of that index.
            assert_eq!(p, pin(7));
            assert!(matches!(level, State::High));
        }
        other => panic!("unexpected outcome: {:?}", other),
    }
}

#[test]
fn read_interrupt_with_mirroring_swallows_bank_b_faults() {
    let dev = MCP23017 { direction: 0xFFFF, mirrored: Feature::On };
    let (cmds, progress) = dev.read_interrupt(Bank::A, &vec![ok(0x00), fail()]);
    assert_eq!(cmds, vec![Cmd::ReadReg(INTFA), Cmd::ReadReg(INTFB)]);
    assert_eq!(progress, Progress::Complete(Ok(None)));
}

#[test]
fn read_interrupt_propagates_bank_a_faults() {
    let dev = MCP23017 { direction: 0xFFFF, mirrored: Feature::On };
    let (_, progress) = dev.read_interrupt(Bank::A, &vec![fail()]);
    assert_eq!(progress, Progress::Complete(Err(Error::Transport)));
}

#[test]
fn clear_interrupts_succeeds_at_once_when_nothing_is_pending() {
    let dev = device(0xFFFF);
    let (cmds, progress) = dev.clear_interrupts(&vec![ok(0x00), ok(0x00)]);
    assert_eq!(cmds, vec![Cmd::ReadReg(INTFA), Cmd::ReadReg(INTFB)]);
    assert_eq!(progress, Progress::Complete(Ok(())));
}

#[test]
fn clear_interrupts_succeeds_when_a_poll_round_sees_zero() {
    // Pending at first, cleared on the second poll round.
    let dev = device(0xFFFF);
    let (cmds, progress) =
        dev.clear_interrupts(&vec![ok(0x01), ok(0x01), ok(0x01), ok(0x00)]);
    assert_eq!(
        cmds,
        vec![
            Cmd::ReadReg(INTFA),
            Cmd::ReadReg(INTFA),
            Cmd::ReadReg(INTFB),
            Cmd::Pause(500),
            Cmd::ReadReg(INTFA),
        ]
    );
    assert_eq!(progress, Progress::Complete(Ok(())));
}

#[test]
fn clear_interrupts_forces_a_clear_after_three_stuck_polls() {
    // Both flag bytes stay non-zero through every poll: the force reads
    // GPIO A and B and reports the distinguished outcome.
    let replies = vec![
        ok(0x01), // initial bank A check: pending
        ok(0x01),
        ok(0x01), // poll round one
        ok(0x01),
        ok(0x01), // poll round two
        ok(0x01),
        ok(0x01), // poll round three
        ok(0xAA),
        ok(0xBB), // forced clear reads
    ];
    let dev = device(0xFFFF);
    let (cmds, progress) = dev.clear_interrupts(&replies);
    assert_eq!(progress, Progress::Complete(Err(Error::InterruptsForcedClear)));
    let n = cmds.len();
    assert_eq!(cmds[n - 2], Cmd::ReadReg(GPIOA));
    assert_eq!(cmds[n - 1], Cmd::ReadReg(GPIOB));
    // Exactly two reads follow the retry loop, and each round paused.
    assert_eq!(reads_in(&cmds), 9);
    assert_eq!(cmds.iter().filter(|c| matches!(c, Cmd::Pause(_))).count(), 3);
}

#[test]
fn pin_mode_with_no_replies_is_pending_on_the_first_read() {
    let mut dev = device(0xFFFF);
    let (cmds, progress) = dev.pin_mode(&pin(3), Mode::Output, &Vec::new());
    assert_eq!(cmds, vec![Cmd::ReadReg(IODIRA)]);
    assert_eq!(progress, Progress::Pending);
    assert_eq!(dev.direction, 0xFFFF);
}

#[test]
fn reset_is_pending_while_replies_are_missing() {
    let dev = device(0xFFFF);
    let (cmds, progress) = dev.reset(&oks(4, 0x00));
    assert_eq!(progress, Progress::Pending);
    // The four answered writes plus the one awaiting its reply.
    assert_eq!(cmds.len(), 5);
}

#[test]
fn interrupt_register_on_bank_b_reads_its_own_registers() {
    let dev = device(0xFFFF);
    let (cmds, progress) = dev.read_interrupt_register(
        Bank::B,
        &vec![ok(0x10), ok(0x00)],
    );
    assert_eq!(
        cmds,
        vec![
            Cmd::ReadReg(mcp23017::device::INTFB),
            Cmd::ReadReg(mcp23017::device::INTCAPB),
        ]
    );
    match progress {
        Progress::Complete(Ok(Some((p, level)))) => {
            assert_eq!(p, pin(4));
            assert!(matches!(level, State::Low));
        }
        other => panic!("unexpected outcome: {:?}", other),
    }
}

#[test]
fn reset_issues_the_fixed_register_sequence() {
    let dev = device(0xFFFF);
    let (cmds, progress) = dev.reset(&oks(15, 0x00));
    assert_eq!(progress, Progress::Complete(Ok(())));
    assert_eq!(cmds.len(), 15);
    assert_eq!(writes_in(&cmds), 13);
    assert_eq!(reads_in(&cmds), 2);
    assert_eq!(cmds[0], Cmd::WriteReg(IODIRA, 0xFF));
    assert_eq!(cmds[1], Cmd::WriteReg(IODIRB, 0xFF));
    assert_eq!(cmds[13], Cmd::ReadReg(GPIOA));
    assert_eq!(cmds[14], Cmd::ReadReg(GPIOB));
}

#[test]
fn reset_aborts_at_the_first_failing_write() {
    // The fifth write fails: nothing further is issued.
    let dev = device(0xFFFF);
    let mut replies = oks(4, 0x00);
    replies.push(fail());
    let (cmds, progress) = dev.reset(&replies);
    assert_eq!(progress, Progress::Complete(Err(Error::Transport)));
    assert_eq!(cmds.len(), 5);
    assert_eq!(writes_in(&cmds), 5);
}
