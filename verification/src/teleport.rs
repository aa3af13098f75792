//! Placing the simulated arm: only the simulator's is, and the reading a drive
//! gives first is the one its encoder wraps to.
use vstd::arithmetic::div_mod::lemma_mod_multiples_vanish;
use vstd::arithmetic::power2::{
    lemma2_to64, lemma_pow2_adds, lemma_pow2_strictly_increases, lemma_pow2_unfold, pow2,
};
use vstd::prelude::*;

verus! {

/// What a request to place the arm does.
#[derive(Clone, Copy, Debug, PartialEq, Eq, Structural)]
pub enum Teleport {
    /// Nothing: there is an arm that cannot be placed.
    Dropped,
    /// The arm is placed.
    Place {
        /// Whether the tool is too, and is told to stay there.
        tool: bool,
    },
}

/// What a request to place the arm does. `tool_positions` is how many the
/// request gives.
pub fn teleport(sim: bool, tool_positions: usize) -> (r: Teleport)
    ensures
        r == (if sim {
            Teleport::Place { tool: tool_positions > 0 }
        } else {
            Teleport::Dropped
        }),
{
    if sim {
        Teleport::Place { tool: tool_positions > 0 }
    } else {
        Teleport::Dropped
    }
}

/// A frame that sends a gripper to a position.
#[derive(Clone, Copy, Debug, PartialEq, Eq, Structural)]
pub struct GripperMove {
    /// How far it closes: none is open, all is closed.
    pub position: u8,
    /// How fast, from the slowest to the fastest.
    pub speed: u8,
    /// The current it may press with, in milliamperes.
    pub current_ma: i16,
    /// Whether the gripper is active.
    pub activate: bool,
    /// Whether it moves.
    pub action: bool,
    /// Whether it stops in an emergency.
    pub estop: bool,
    /// Whether it opens to release.
    pub release_dir: bool,
}

/// The frame that sends a gripper to a position.
pub fn gripper_move_command(position: u8, speed: u8, current_ma: i16) -> (r: GripperMove)
    ensures
        r == (GripperMove {
            position,
            speed,
            current_ma,
            activate: true,
            action: true,
            estop: false,
            release_dir: false,
        }),
{
    GripperMove {
        position,
        speed,
        current_ma,
        activate: true,
        action: true,
        estop: false,
        release_dir: false,
    }
}

/// Whether the arm counts as placed, and so as homed: the bus is the
/// simulator's still, and took the pose. A tool that was not placed does not
/// keep the arm from it.
pub fn placed(on_simulator: bool, took_pose: bool) -> (r: bool)
    ensures
        r == (on_simulator && took_pose),
{
    on_simulator && took_pose
}

/// The reading an encoder of that many bits gives first at a position: the
/// position, wrapped into the encoder's range.
pub fn wrapped_reading(ticks: i32, encoder_bits: u32) -> (r: i32)
    requires
        encoder_bits <= 31,
    ensures
        0 <= r < pow2(encoder_bits as nat),
        r == (ticks as int) % (pow2(encoder_bits as nat) as int),
{
    let mut range: u64 = 1;
    let mut k: u32 = 0;
    proof {
        lemma2_to64();
    }
    while k < encoder_bits
        invariant
            k <= encoder_bits <= 31,
            range == pow2(k as nat),
            range <= 0x8000_0000,
        decreases encoder_bits - k,
    {
        proof {
            lemma_pow2_unfold((k + 1) as nat);
            lemma_half(k as nat);
        }
        range = range * 2;
        k += 1;
    }
    // Whole turns are added, so that nothing negative is divided.
    let turned: u64 = (ticks as i64 + 0x8000_0000) as u64;
    let rest: u64 = turned % range;
    proof {
        lemma2_to64();
        lemma_pow2_adds(encoder_bits as nat, (31 - encoder_bits) as nat);
        lemma_mod_multiples_vanish(
            pow2((31 - encoder_bits) as nat) as int,
            ticks as int,
            range as int,
        );
    }
    rest as i32
}

/// Doubling a power of two below the thirty-first stays at or below it.
proof fn lemma_half(k: nat)
    requires
        k < 31,
    ensures
        2 * pow2(k) <= 0x8000_0000,
{
    lemma2_to64();
    if k < 30 {
        lemma_pow2_strictly_increases(k, 30);
    }
}

} // verus!
