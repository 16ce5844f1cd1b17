//! What a vehicle says about itself when it is asked who it is.

use vstd::prelude::*;

verus! {

/// A vehicle's identity, as it is announced on the network.
#[derive(Debug, Clone, Copy, PartialEq, Eq)]
pub struct VehicleIdentity {
    /// The vehicle identification number: seventeen bytes.
    pub m_arrVin: [u8; 17],
    /// Entity identification: six bytes.
    pub m_arrEid: [u8; 6],
    /// Group identification: six bytes.
    pub m_arrGid: [u8; 6],
    /// What a tester has to do before it can diagnose the vehicle.
    pub m_byFurtherActionRequired: u8,
    /// Whether all entities of the vehicle agree on VIN and GID.
    pub m_byVinGidSyncStatus: u8,
}

impl VehicleIdentity {
    /// The vehicle identification number.
    pub fn VinBytes(&self) -> (arrVin: [u8; 17])
        ensures
            arrVin == self.m_arrVin,
    {
        self.m_arrVin
    }

    /// The entity identification.
    pub fn EidBytes(&self) -> (arrEid: [u8; 6])
        ensures
            arrEid == self.m_arrEid,
    {
        self.m_arrEid
    }

    /// The group identification.
    pub fn GidBytes(&self) -> (arrGid: [u8; 6])
        ensures
            arrGid == self.m_arrGid,
    {
        self.m_arrGid
    }
}

} // verus!
