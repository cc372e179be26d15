//! The serial port scanner's bookkeeping: which of the configured ports may
//! still be opened. Opening a port is the caller's work; a port that opened
//! is in use from then on.
use vstd::prelude::*;

verus! {

/// The message that stops a scanner.
pub enum PortScannerMsg {
    Shutdown,
}

#[derive(Clone, Copy, Debug, PartialEq, Eq, Structural)]
pub enum PortStatus {
    Available,
    InUse,
}

pub struct PortInfo {
    pub name: String,
    pub status: PortStatus,
}

/// The configured serial ports and their status.
pub struct PortScanner {
    ports: Vec<PortInfo>,
}

/// The positions of the ports that are still available, in order.
pub open spec fn available_positions(ports: Seq<PortInfo>, k: int) -> Seq<usize>
    decreases k,
{
    if k <= 0 {
        seq![]
    } else if ports[k - 1].status == PortStatus::Available {
        available_positions(ports, k - 1).push((k - 1) as usize)
    } else {
        available_positions(ports, k - 1)
    }
}

impl PortScanner {
    pub closed spec fn ports(&self) -> Seq<PortInfo> {
        self.ports@
    }

    /// A scanner over the named ports, all of them available.
    pub fn new(names: Vec<String>) -> (r: PortScanner)
        ensures
            r.ports().len() == names@.len(),
            forall|i: int| 0 <= i < names@.len() ==> (#[trigger] r.ports()[i]).name == names@[i]
                && r.ports()[i].status == PortStatus::Available,
    {
        let mut ports: Vec<PortInfo> = Vec::new();
        let mut rest = names;
        let ghost all = rest@;
        let mut reversed: Vec<String> = Vec::new();
        while rest.len() > 0
            invariant
                rest@.len() + reversed@.len() == all.len(),
                forall|i: int| 0 <= i < rest@.len() ==> #[trigger] rest@[i] == all[i],
                forall|i: int| 0 <= i < reversed@.len() ==> #[trigger] reversed@[i] == all[all.len() - 1 - i],
            decreases rest@.len(),
        {
            let n = rest.pop().unwrap();
            reversed.push(n);
        }
        while reversed.len() > 0
            invariant
                ports@.len() + reversed@.len() == all.len(),
                forall|i: int| 0 <= i < reversed@.len() ==> #[trigger] reversed@[i] == all[all.len() - 1 - i],
                forall|i: int| 0 <= i < ports@.len() ==> (#[trigger] ports@[i]).name == all[i]
                    && ports@[i].status == PortStatus::Available,
            decreases reversed@.len(),
        {
            let n = reversed.pop().unwrap();
            ports.push(PortInfo { name: n, status: PortStatus::Available });
        }
        PortScanner { ports }
    }

    pub fn port_count(&self) -> (r: usize)
        ensures
            r == self.ports().len(),
    {
        self.ports.len()
    }

    pub fn name(&self, i: usize) -> (r: &String)
        requires
            i < self.ports().len(),
        ensures
            *r == self.ports()[i as int].name,
    {
        &self.ports[i].name
    }

    /// The ports worth trying in this pass: those not in use, in order.
    pub fn candidates(&self) -> (r: Vec<usize>)
        ensures
            r@ == available_positions(self.ports(), self.ports().len() as int),
    {
        let mut out: Vec<usize> = Vec::new();
        let mut i: usize = 0;
        while i < self.ports.len()
            invariant
                i <= self.ports@.len(),
                out@ == available_positions(self.ports@, i as int),
            decreases self.ports@.len() - i,
        {
            if self.ports[i].status == PortStatus::Available {
                out.push(i);
            }
            i = i + 1;
        }
        out
    }

    /// Records that port `i` opened: it is not tried again.
    pub fn mark_in_use(&mut self, i: usize)
        requires
            i < old(self).ports().len(),
        ensures
            final(self).ports().len() == old(self).ports().len(),
            final(self).ports()[i as int].status == PortStatus::InUse,
            final(self).ports()[i as int].name == old(self).ports()[i as int].name,
            forall|j: int| 0 <= j < old(self).ports().len() && j != i ==> #[trigger] final(self).ports()[j] == old(self).ports()[j],
    {
        self.ports[i].status = PortStatus::InUse;
    }
}

} // verus!
