use hexisle::process::blend;
use hexisle::process::burn;
use hexisle::process::chop;
use hexisle::process::dice;
use hexisle::process::freeze;
use hexisle::process::grind;
use hexisle::process::mix;
use hexisle::process::shake;
use hexisle::process::spin_left;
use hexisle::process::spin_right;
use hexisle::process::Process;
use hexisle::process::ProcessTest;

#[test]
fn xor_processes_exact_values() {
    assert_eq!(freeze(0b1010_0101), 0b1010_1010);
    assert_eq!(burn(0b1010_0101), 0b0101_0101);
    assert_eq!(chop(0b1010_0101), 0b1111_0000);
    assert_eq!(grind(0b1010_0101), 0b0000_1111);
    assert_eq!(shake(0b1010_0101), 0b0101_1010);
    assert_eq!(blend(0b1010_0101), 0b0110_0110);
    assert_eq!(mix(0b1010_0101), 0b1001_1001);
}

#[test]
fn xor_processes_are_involutions() {
    for v in 0..=255u8 {
        assert_eq!(freeze(freeze(v)), v);
        assert_eq!(burn(burn(v)), v);
        assert_eq!(chop(chop(v)), v);
        assert_eq!(grind(grind(v)), v);
        assert_eq!(shake(shake(v)), v);
        assert_eq!(blend(blend(v)), v);
        assert_eq!(mix(mix(v)), v);
        assert_eq!(dice(dice(v)), v);
    }
}

#[test]
fn dice_swaps_the_nibbles() {
    assert_eq!(dice(0xab), 0xba);
    assert_eq!(dice(0x0f), 0xf0);
    assert_eq!(dice(0x00), 0x00);
}

#[test]
fn spin_left_stops_at_a_set_top_bit() {
    assert_eq!(spin_left(0b0001_0000), 0b1000_0000);
    assert_eq!(spin_left(0b1000_0000), 0b0000_1000);
    assert_eq!(spin_left(0b0100_0000), 0b1000_0000);
    assert_eq!(spin_left(0), 0);
    assert_eq!(spin_left(0b0000_0001), 0b0001_0000);
}

#[test]
fn spin_right_stops_at_a_set_bottom_bit() {
    assert_eq!(spin_right(0b0000_1000), 0b0000_0001);
    assert_eq!(spin_right(0b0000_0001), 0b0001_0000);
    assert_eq!(spin_right(0b0000_0010), 0b0000_0001);
    assert_eq!(spin_right(0), 0);
}

#[test]
fn apply_process_records_and_blocks_repeats() {
    let mut item = ProcessTest(5, 0);
    item.apply_process(Process::Freeze);
    assert_eq!(item, ProcessTest(10, 1));
    item.apply_process(Process::Freeze);
    assert_eq!(item, ProcessTest(10, 1));
    // Burn shares the freeze bit, so it is blocked too.
    item.apply_process(Process::Burn);
    assert_eq!(item, ProcessTest(10, 1));
}

#[test]
fn shake_can_always_be_repeated() {
    let mut item = ProcessTest(0b1100_0000, 0);
    item.apply_process(Process::Shake);
    assert_eq!(item, ProcessTest(0b0011_1111, 0));
    item.apply_process(Process::Shake);
    assert_eq!(item, ProcessTest(0b1100_0000, 0));
}

#[test]
fn process_masks_pair_opposites() {
    assert_eq!(Process::SpinLeft.mask(), Process::SpinRight.mask());
    assert_eq!(Process::Freeze.mask(), Process::Burn.mask());
    assert_eq!(Process::Chop.mask(), Process::Grind.mask());
    assert_eq!(Process::Blend.mask(), Process::Mix.mask());
    assert_eq!(Process::Shake.mask(), 0);
    assert_eq!(Process::Dice.mask(), 0x20);
}
