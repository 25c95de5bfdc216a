//! Signatures: how many value and state ports a node or a region has.

use vstd::prelude::*;

verus! {

/// The port counts of a node: value inputs, value outputs, state inputs and
/// state outputs. Value ports come before state ports on either side.
#[derive(Debug, Copy, Clone, PartialEq, Eq, Structural)]
pub struct SigS {
    pub val_ins: usize,
    pub val_outs: usize,
    pub st_ins: usize,
    pub st_outs: usize,
}

/// The port counts of a region: arguments enter it, results leave it.
#[derive(Debug, Copy, Clone, PartialEq, Eq, Structural)]
pub struct RegionSigS {
    pub val_args: usize,
    pub val_res: usize,
    pub st_args: usize,
    pub st_res: usize,
}

impl Default for SigS {
    fn default() -> (s: SigS)
        ensures
            s == SigS::empty(),
    {
        SigS { val_ins: 0, val_outs: 0, st_ins: 0, st_outs: 0 }
    }
}

impl Default for RegionSigS {
    fn default() -> (s: RegionSigS)
        ensures
            s == (RegionSigS { val_args: 0, val_res: 0, st_args: 0, st_res: 0 }),
    {
        RegionSigS { val_args: 0, val_res: 0, st_args: 0, st_res: 0 }
    }
}

impl SigS {
    /// The signature without any port.
    pub open spec fn empty() -> SigS {
        SigS { val_ins: 0, val_outs: 0, st_ins: 0, st_outs: 0 }
    }

    /// Number of input ports, as a mathematical integer.
    pub open spec fn input_ports(self) -> int {
        self.val_ins + self.st_ins
    }

    /// Number of output ports, as a mathematical integer.
    pub open spec fn output_ports(self) -> int {
        self.val_outs + self.st_outs
    }

    /// Both port counts can be held in a `usize`.
    pub open spec fn fits(self) -> bool {
        self.input_ports() <= usize::MAX && self.output_ports() <= usize::MAX
    }

    /// A node with this signature has at least one state output.
    pub open spec fn side_effectful(self) -> bool {
        self.st_outs > 0
    }

    /// Number of input ports: value inputs, then state inputs.
    pub fn num_input_ports(&self) -> (n: usize)
        requires
            self.input_ports() <= usize::MAX,
        ensures
            n == self.input_ports(),
    {
        self.val_ins + self.st_ins
    }

    /// Number of output ports: value outputs, then state outputs.
    pub fn num_output_ports(&self) -> (n: usize)
        requires
            self.output_ports() <= usize::MAX,
        ensures
            n == self.output_ports(),
    {
        self.val_outs + self.st_outs
    }

    /// Whether a node with this signature produces state, which bars it from
    /// being shared with a structurally equal node.
    pub fn is_side_effectful(&self) -> (b: bool)
        ensures
            b == self.side_effectful(),
    {
        self.st_outs > 0
    }
}

impl RegionSigS {
    /// Number of argument ports, as a mathematical integer.
    pub open spec fn argument_ports(self) -> int {
        self.val_args + self.st_args
    }

    /// Number of result ports, as a mathematical integer.
    pub open spec fn result_ports(self) -> int {
        self.val_res + self.st_res
    }

    /// Number of argument ports: value arguments, then state arguments.
    pub fn num_argument_ports(&self) -> (n: usize)
        requires
            self.argument_ports() <= usize::MAX,
        ensures
            n == self.argument_ports(),
    {
        self.val_args + self.st_args
    }

    /// Number of result ports: value results, then state results.
    pub fn num_result_ports(&self) -> (n: usize)
        requires
            self.result_ports() <= usize::MAX,
        ensures
            n == self.result_ports(),
    {
        self.val_res + self.st_res
    }
}

/// What an operation vocabulary must provide: the signature of each of its
/// operations.
pub trait Sig {
    /// The signature of this operation, as the contracts speak of it. A
    /// verified vocabulary states it; left as it is, it is unknown.
    open spec fn sig_spec(&self) -> SigS {
        arbitrary()
    }

    /// The signature of this operation.
    fn sig(&self) -> (s: SigS)
        ensures
            s == self.sig_spec(),
    ;
}

} // verus!
