//! The kitchen processes: bit-twiddling transformations an item value goes
//! through in the lab, and the mask that stops a process from being applied
//! to the same item twice.

use vstd::prelude::*;

verus! {

/// The ten lab processes.
#[derive(Debug, Clone, Copy, PartialEq, Eq, Structural)]
pub enum Process {
    SpinLeft,
    SpinRight,
    Freeze,
    Burn,
    Dice,
    Chop,
    Grind,
    Shake,
    Blend,
    Mix,
}

/// The "already done" bit a process occupies in an item's process mask;
/// opposite processes share a bit, and shaking can always be repeated.
pub open spec fn process_mask(p: Process) -> u8 {
    match p {
        Process::SpinLeft => 0x08,
        Process::SpinRight => 0x08,
        Process::Freeze => 0x01,
        Process::Burn => 0x01,
        Process::Dice => 0x20,
        Process::Chop => 0x02,
        Process::Grind => 0x02,
        Process::Shake => 0x00,
        Process::Blend => 0x10,
        Process::Mix => 0x10,
    }
}

/// The value a process turns an item into.
pub open spec fn process_result(v: u8, p: Process) -> u8 {
    match p {
        Process::SpinLeft => spin_left_spec(v),
        Process::SpinRight => spin_right_spec(v),
        Process::Freeze => v ^ 0x0f,
        Process::Burn => v ^ 0xf0,
        Process::Dice => (v >> 4) | (v << 4),
        Process::Chop => v ^ 0x55,
        Process::Grind => v ^ 0xaa,
        Process::Shake => !v,
        Process::Blend => v ^ 0xc3,
        Process::Mix => v ^ 0x3c,
    }
}

/// One rotation of the byte to the left.
pub open spec fn rot_left1(v: u8) -> u8 {
    (v << 1) | (v >> 7)
}

/// One rotation of the byte to the right.
pub open spec fn rot_right1(v: u8) -> u8 {
    (v >> 1) | (v << 7)
}

/// Left rotation repeated until the top bit is set, at most four times.
pub open spec fn spin_left_spec(v: u8) -> u8 {
    let v1 = rot_left1(v);
    if v1 >= 128 {
        v1
    } else {
        let v2 = rot_left1(v1);
        if v2 >= 128 {
            v2
        } else {
            let v3 = rot_left1(v2);
            if v3 >= 128 {
                v3
            } else {
                rot_left1(v3)
            }
        }
    }
}

/// Right rotation repeated until the bottom bit is set, at most four times.
pub open spec fn spin_right_spec(v: u8) -> u8 {
    let v1 = rot_right1(v);
    if v1 & 1 == 1 {
        v1
    } else {
        let v2 = rot_right1(v1);
        if v2 & 1 == 1 {
            v2
        } else {
            let v3 = rot_right1(v2);
            if v3 & 1 == 1 {
                v3
            } else {
                rot_right1(v3)
            }
        }
    }
}

impl Process {
    /// The "already done" bit this process occupies in the process mask.
    pub fn mask(self) -> (m: u8)
        ensures
            m == process_mask(self),
    {
        match self {
            Process::SpinLeft => 0x08,
            Process::SpinRight => 0x08,
            Process::Freeze => 0x01,
            Process::Burn => 0x01,
            Process::Dice => 0x20,
            Process::Chop => 0x02,
            Process::Grind => 0x02,
            Process::Shake => 0x00,
            Process::Blend => 0x10,
            Process::Mix => 0x10,
        }
    }
}

/// Flip the low nibble.
pub fn freeze(val: u8) -> (r: u8)
    ensures
        r == val ^ 0x0f,
{
    val ^ 0x0f
}

/// Flip the high nibble.
pub fn burn(val: u8) -> (r: u8)
    ensures
        r == val ^ 0xf0,
{
    val ^ 0xf0
}

/// Rotate left until the top bit is set, at most four times.
pub fn spin_left(val: u8) -> (r: u8)
    ensures
        r == spin_left_spec(val),
{
    let v1: u8 = (val << 1) | (val >> 7);
    if v1 >= 128 {
        return v1;
    }
    let v2: u8 = (v1 << 1) | (v1 >> 7);
    if v2 >= 128 {
        return v2;
    }
    let v3: u8 = (v2 << 1) | (v2 >> 7);
    if v3 >= 128 {
        return v3;
    }
    (v3 << 1) | (v3 >> 7)
}

/// Rotate right until the bottom bit is set, at most four times.
pub fn spin_right(val: u8) -> (r: u8)
    ensures
        r == spin_right_spec(val),
{
    let v1: u8 = (val >> 1) | (val << 7);
    if v1 & 1 == 1 {
        return v1;
    }
    let v2: u8 = (v1 >> 1) | (v1 << 7);
    if v2 & 1 == 1 {
        return v2;
    }
    let v3: u8 = (v2 >> 1) | (v2 << 7);
    if v3 & 1 == 1 {
        return v3;
    }
    (v3 >> 1) | (v3 << 7)
}

/// Flip every other bit, starting from the bottom.
pub fn chop(val: u8) -> (r: u8)
    ensures
        r == val ^ 0x55,
{
    val ^ 0x55
}

/// Flip every other bit, starting from the top.
pub fn grind(val: u8) -> (r: u8)
    ensures
        r == val ^ 0xaa,
{
    val ^ 0xaa
}

/// Flip every bit.
pub fn shake(val: u8) -> (r: u8)
    ensures
        r == !val,
{
    !val
}

/// Flip the two outer bit pairs.
pub fn blend(val: u8) -> (r: u8)
    ensures
        r == val ^ 0xc3,
{
    val ^ 0xc3
}

/// Flip the two inner bit pairs.
pub fn mix(val: u8) -> (r: u8)
    ensures
        r == val ^ 0x3c,
{
    val ^ 0x3c
}

/// Swap the two nibbles.
pub fn dice(val: u8) -> (r: u8)
    ensures
        r == (val >> 4) | (val << 4),
{
    (val >> 4) | (val << 4)
}

/// Scratch state for exploring process chains: the item value and the mask
/// of processes already applied to it.
#[derive(Debug, Clone, Copy, PartialEq, Eq, Structural)]
pub struct ProcessTest(pub u8, pub u8);

impl ProcessTest {
    /// Apply a process to the value unless the process's bit is already
    /// set in the mask; a fresh application records its bit.
    pub fn apply_process(&mut self, process: Process)
        ensures
            old(self).1 & process_mask(process) > 0 ==> *final(self) == *old(self),
            old(self).1 & process_mask(process) == 0 ==> final(self).1 == (old(self).1
                | process_mask(process)) && final(self).0 == process_result(old(self).0, process),
    {
        let m = process.mask();
        if self.1 & m > 0 {
            return;
        }
        self.1 = self.1 | m;
        self.0 = match process {
            Process::SpinLeft => spin_left(self.0),
            Process::SpinRight => spin_right(self.0),
            Process::Freeze => freeze(self.0),
            Process::Burn => burn(self.0),
            Process::Chop => chop(self.0),
            Process::Grind => grind(self.0),
            Process::Shake => shake(self.0),
            Process::Blend => blend(self.0),
            Process::Mix => mix(self.0),
            Process::Dice => dice(self.0),
        };
    }
}

} // verus!
