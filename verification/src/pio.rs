//! Declarative use of the RP2040 PIO blocks: smart LED strips, servo
//! matrices and quadrature encoders.
use vstd::prelude::*;
use crate::hal::{Hal, HalOp};

verus! {

/// The PIO programs a school project can load.
#[derive(Clone, Copy, Debug, PartialEq, Eq, Structural)]
pub enum PioConfigType {
    /// Addressable LED strip (NeoPixel).
    Ws2812SmartLed,
    /// Hardware controller of a group of servos.
    ServoMatrix,
    /// Step counting of motor encoders.
    QuadratureEncoder,
}

/// Handle of one PIO state machine running one of the school programs.
pub struct SchoolPioExecutor {
    config_type: PioConfigType,
    base_pin: u32,
    state_machine_id: u8,
}

impl SchoolPioExecutor {
    /// The program the state machine runs.
    pub closed spec fn config(&self) -> PioConfigType {
        self.config_type
    }

    /// The first pin the program drives.
    pub closed spec fn pin(&self) -> u32 {
        self.base_pin
    }

    /// The hardware state machine slot.
    pub closed spec fn state_machine(&self) -> u8 {
        self.state_machine_id
    }

    /// Sets the colour of a pixel of a WS2812 strip: the 24-bit GRB colour,
    /// shifted into the top three bytes, goes into the state machine's TX
    /// FIFO. Under any other program nothing is issued.
    pub fn set_pixel(&mut self, hal: &mut Hal, index: u32, r: u8, g: u8, b: u8)
        ensures
            *final(self) == *old(self),
            final(hal)@ == if old(self).config() is Ws2812SmartLed {
                old(hal)@.push(HalOp::PioPush { sm_id: old(self).state_machine(), data: grb_word(r, g, b) })
            } else {
                old(hal)@
            },
    {
        if let PioConfigType::Ws2812SmartLed = self.config_type {
            let rgb_data: u32 = ((g as u32) << 24u32) | ((r as u32) << 16u32) | ((b as u32) << 8u32);
            proof {
                lemma_grb_word(r, g, b);
            }
            hal.record(HalOp::PioPush { sm_id: self.state_machine_id, data: rgb_data });
        }
    }

    /// Turns a servo of a servo matrix to `angle` (0..=180 degrees); under
    /// any other program nothing is issued.
    pub fn write_angle(&mut self, hal: &mut Hal, servo_index: u8, angle: u8)
        ensures
            *final(self) == *old(self),
            final(hal)@ == if old(self).config() is ServoMatrix {
                old(hal)@.push(HalOp::ServoPulse { sm_id: old(self).state_machine(), index: servo_index, angle })
            } else {
                old(hal)@
            },
    {
        if let PioConfigType::ServoMatrix = self.config_type {
            hal.record(HalOp::ServoPulse { sm_id: self.state_machine_id, index: servo_index, angle });
        }
    }

    /// Starts the state machine on the data sent so far.
    pub fn show(&mut self, hal: &mut Hal)
        ensures
            *final(self) == *old(self),
            final(hal)@ == old(hal)@.push(HalOp::PioTrigger { sm_id: old(self).state_machine() }),
    {
        hal.record(HalOp::PioTrigger { sm_id: self.state_machine_id });
    }
}

/// The FIFO word of a WS2812 pixel: green in the top byte, then red, then
/// blue, and a zero low byte.
pub open spec fn grb_word(r: u8, g: u8, b: u8) -> u32 {
    (g as int * 0x100_0000 + r as int * 0x1_0000 + b as int * 0x100) as u32
}

proof fn lemma_grb_word(r: u8, g: u8, b: u8)
    ensures
        ((g as u32) << 24u32) | ((r as u32) << 16u32) | ((b as u32) << 8u32) == grb_word(r, g, b),
{
    let gg = g as u32;
    let rr = r as u32;
    let bb = b as u32;
    assert((gg << 24u32) | (rr << 16u32) | (bb << 8u32) == gg * 0x100_0000 + rr * 0x1_0000 + bb * 0x100)
        by (bit_vector)
        requires gg < 256, rr < 256, bb < 256;
}

/// Builds the handle of a PIO program `config` on `pin`, running in the
/// state machine slot `state_machine_id` that the hardware allocated for it.
pub fn init_school_pio(config: PioConfigType, pin: u32, state_machine_id: u8) -> (pio: SchoolPioExecutor)
    ensures
        pio.config() == config,
        pio.pin() == pin,
        pio.state_machine() == state_machine_id,
{
    SchoolPioExecutor { config_type: config, base_pin: pin, state_machine_id }
}

/// The colour components can be read back from a pixel word: the top byte is
/// green, the next red, the next blue, and the low byte is zero.
pub proof fn lemma_grb_word_unpacks(r: u8, g: u8, b: u8)
    ensures
        grb_word(r, g, b) >> 24u32 == g as u32,
        (grb_word(r, g, b) >> 16u32) & 0xff == r as u32,
        (grb_word(r, g, b) >> 8u32) & 0xff == b as u32,
        grb_word(r, g, b) & 0xff == 0,
{
    lemma_grb_word(r, g, b);
    let gg = g as u32;
    let rr = r as u32;
    let bb = b as u32;
    let w = (gg << 24u32) | (rr << 16u32) | (bb << 8u32);
    assert(w >> 24u32 == gg && (w >> 16u32) & 0xff == rr && (w >> 8u32) & 0xff == bb && w & 0xff == 0)
        by (bit_vector)
        requires gg < 256, rr < 256, bb < 256, w == (gg << 24u32) | (rr << 16u32) | (bb << 8u32);
}

} // verus!
