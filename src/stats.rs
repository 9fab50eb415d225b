//! Counters of federation activity, reported and reset periodically.
use vstd::prelude::*;

verus! {

/// Counters of outgoing federation traffic since the last report.
#[derive(Debug, Default)]
pub struct FederationStats {
    pub outgoing_txns: u64,
    pub outgoing_pdus: u64,
    pub outgoing_edus: u64,
    pub outgoing_presence: u64,
    pub outgoing_errors: u64,
}

impl FederationStats {
    /// Resets every counter to zero and returns whether any transaction, PDU
    /// or EDU was sent since the last report.
    pub fn report_and_reset(&mut self) -> (r: bool)
        ensures
            r == (old(self).outgoing_txns != 0 || old(self).outgoing_pdus != 0
                || old(self).outgoing_edus != 0),
            final(self).outgoing_txns == 0,
            final(self).outgoing_pdus == 0,
            final(self).outgoing_edus == 0,
            final(self).outgoing_presence == 0,
            final(self).outgoing_errors == 0,
    {
        let txns = self.outgoing_txns;
        let pdus = self.outgoing_pdus;
        let edus = self.outgoing_edus;
        self.outgoing_txns = 0;
        self.outgoing_pdus = 0;
        self.outgoing_edus = 0;
        self.outgoing_presence = 0;
        self.outgoing_errors = 0;
        !(txns == 0 && pdus == 0 && edus == 0)
    }
}

} // verus!
