//! The hardware access layer, as a trace of operations.
use vstd::prelude::*;

verus! {

/// One operation on the board's peripherals, in the form in which the
/// low-level driver layer receives it.
#[derive(Clone, Copy, Debug, PartialEq, Eq, Structural)]
pub enum HalOp {
    /// Switch the board's built-in LED to `state`.
    BuiltinLed { state: u8 },
    /// Drive GPIO `pin` to `state`.
    PinWrite { pin: u32, state: u8 },
    /// Set the PWM duty of `pin` to `value` (0..=255).
    PwmDuty { pin: u32, value: u8 },
    /// Block the current thread for `ms` milliseconds.
    Delay { ms: u32 },
    /// Push a 32-bit word into the TX FIFO of PIO state machine `sm_id`.
    PioPush { sm_id: u8, data: u32 },
    /// Set the pulse of servo `index` driven by PIO state machine `sm_id`.
    ServoPulse { sm_id: u8, index: u8, angle: u8 },
    /// Start execution of the program loaded in PIO state machine `sm_id`.
    PioTrigger { sm_id: u8 },
}

/// The ordered list of peripheral operations issued so far and not yet
/// handed to the driver layer.
pub struct Hal {
    ops: Vec<HalOp>,
}

impl View for Hal {
    type V = Seq<HalOp>;

    closed spec fn view(&self) -> Seq<HalOp> {
        self.ops@
    }
}

impl Hal {
    /// An empty trace.
    pub fn new() -> (hal: Hal)
        ensures
            hal@ == Seq::<HalOp>::empty(),
    {
        Hal { ops: Vec::new() }
    }

    /// Appends one operation.
    pub fn record(&mut self, op: HalOp)
        ensures
            final(self)@ == old(self)@.push(op),
    {
        self.ops.push(op);
    }

    /// The operations issued so far, oldest first.
    pub fn ops(&self) -> (ops: &Vec<HalOp>)
        ensures
            ops@ == self@,
    {
        &self.ops
    }

    /// Hands the issued operations out, oldest first, and empties the trace.
    pub fn take_ops(&mut self) -> (ops: Vec<HalOp>)
        ensures
            ops@ == old(self)@,
            final(self)@ == Seq::<HalOp>::empty(),
    {
        let mut taken: Vec<HalOp> = Vec::new();
        std::mem::swap(&mut taken, &mut self.ops);
        taken
    }
}

/// System initialisation of the hardware layer: it starts with no pending
/// operation.
pub fn init() -> (hal: Hal)
    ensures
        hal@ == Seq::<HalOp>::empty(),
{
    Hal::new()
}

} // verus!
