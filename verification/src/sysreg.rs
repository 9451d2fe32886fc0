//! System registers of the executing processor, with a record of all
//! accesses.

use vstd::prelude::*;

verus! {

/// A system register.
#[derive(Clone, Copy, Debug, PartialEq, Eq, Structural)]
pub enum SysReg {
    Midr,
    Mpidr,
    /// Control register in effect at the current level.
    Actlr,
    HacrEl2,
    /// Gate of the timers that raise fast interrupts.
    TimerGate,
    CntpCtl,
    CntvCtl,
    GuestCntpCtl,
    GuestCntvCtl,
    FastIpiStatus,
    FastIpiLocal,
    FastIpiGlobal,
    Pmcr0,
    Upmcr0,
    Upmsr,
    Isr,
    Daif,
    Elr,
    Spsr,
    Hcr,
    Cnthctl,
    IchHcr,
    IchMisr,
    L2cErrSts,
    L2cErrAdr,
    L2cErrInf,
    ELsuErrSts,
    EFedErrSts,
    PLsuErrSts,
    PFedErrSts,
}

/// The processor's primitives. Nothing is assumed of the values that come
/// back.
pub trait SysRegs {
    fn read(&mut self, reg: SysReg) -> u64;

    fn write(&mut self, reg: SysReg, value: u64);

    /// Synchronize the instruction stream.
    fn isb(&mut self);

    /// Complete all earlier accesses.
    fn dsb(&mut self);
}

/// One recorded access.
pub enum SysOp {
    Read { reg: SysReg, value: u64 },
    Write { reg: SysReg, value: u64 },
    Isb,
    Dsb,
}

/// A read and what it returned.
pub open spec fn got(reg: SysReg, value: u64) -> SysOp {
    SysOp::Read { reg, value }
}

/// A write.
pub open spec fn put(reg: SysReg, value: u64) -> SysOp {
    SysOp::Write { reg, value }
}

/// The executing processor.
pub struct Cpu<S: SysRegs> {
    inner: S,
    log: Ghost<Seq<SysOp>>,
}

impl<S: SysRegs> Cpu<S> {
    /// The recorded accesses.
    pub closed spec fn ops(&self) -> Seq<SysOp> {
        self.log@
    }

    pub fn new(inner: S) -> (r: Self)
        ensures
            r.behind() == inner,
            r.ops() == Seq::<SysOp>::empty(),
    {
        Cpu { inner, log: Ghost(Seq::empty()) }
    }

    /// What is behind the record.
    pub closed spec fn behind(&self) -> S {
        self.inner
    }

    /// Gives the processor back.
    pub fn into_inner(self) -> (r: S)
        ensures
            r == self.behind(),
    {
        self.inner
    }

    pub fn read(&mut self, reg: SysReg) -> (value: u64)
        ensures
            final(self).ops() == old(self).ops().push(got(reg, value)),
    {
        let value: u64 = self.inner.read(reg);
        self.log = Ghost(self.log@.push(got(reg, value)));
        value
    }

    pub fn write(&mut self, reg: SysReg, value: u64)
        ensures
            final(self).ops() == old(self).ops().push(put(reg, value)),
    {
        self.inner.write(reg, value);
        self.log = Ghost(self.log@.push(put(reg, value)));
    }

    pub fn isb(&mut self)
        ensures
            final(self).ops() == old(self).ops().push(SysOp::Isb),
    {
        self.inner.isb();
        self.log = Ghost(self.log@.push(SysOp::Isb));
    }

    pub fn dsb(&mut self)
        ensures
            final(self).ops() == old(self).ops().push(SysOp::Dsb),
    {
        self.inner.dsb();
        self.log = Ghost(self.log@.push(SysOp::Dsb));
    }
}

} // verus!
