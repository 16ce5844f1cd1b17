//! An in-memory CAN bus: what the engine sends is recorded, and what is injected is delivered.

use std::collections::VecDeque;

use vstd::prelude::*;

use crate::bridge::queue::AppendFrames;
use crate::bridge::queue::DrainFrames;
use crate::can::CanFrame;

verus! {

/// Both ends of an in-memory bus.
#[derive(Debug)]
pub struct MockBusHandle {
    m_vecTransmitted: Vec<CanFrame>,
    m_queueInbound: VecDeque<CanFrame>,
}

/// The frames the engine has sent, and those it has not taken yet.
pub ghost struct MockBusView {
    pub transmitted: Seq<CanFrame>,
    pub inbound: Seq<CanFrame>,
}

impl View for MockBusHandle {
    type V = MockBusView;

    closed spec fn view(&self) -> MockBusView {
        MockBusView { transmitted: self.m_vecTransmitted@, inbound: self.m_queueInbound@ }
    }
}

impl Default for MockBusHandle {
    fn default() -> (handle: Self)
        ensures
            handle@ == (MockBusView { transmitted: seq![], inbound: seq![] }),
    {
        let handle = MockBusHandle {
            m_vecTransmitted: Vec::new(),
            m_queueInbound: VecDeque::new(),
        };
        assert(handle@.transmitted =~= seq![]);
        assert(handle@.inbound =~= seq![]);
        handle
    }
}

impl MockBusHandle {
    /// Deliver a frame to the engine, as if a tester had put it on the bus.
    pub fn InjectFrame(&mut self, frame: CanFrame)
        ensures
            final(self)@ == (MockBusView {
                inbound: old(self)@.inbound.push(frame),
                ..old(self)@
            }),
    {
        self.m_queueInbound.push_back(frame);
    }

    /// Deliver several frames in order.
    pub fn InjectFrames(&mut self, vecFrames: Vec<CanFrame>)
        ensures
            final(self)@ == (MockBusView {
                inbound: old(self)@.inbound + vecFrames@,
                ..old(self)@
            }),
    {
        AppendFrames(&mut self.m_queueInbound, vecFrames);
    }

    /// How many frames the engine has put on the bus since they were last taken.
    pub fn TransmittedCount(&self) -> (uCount: usize)
        ensures
            uCount == self@.transmitted.len(),
    {
        self.m_vecTransmitted.len()
    }

    /// Everything the engine has put on the bus so far.
    pub fn TransmittedFrames(&self) -> (vecFrames: &Vec<CanFrame>)
        ensures
            vecFrames@ == self@.transmitted,
    {
        &self.m_vecTransmitted
    }

    /// Everything the engine has sent, then forget it.
    pub fn TakeTransmittedFrames(&mut self) -> (vecFrames: Vec<CanFrame>)
        ensures
            vecFrames@ == old(self)@.transmitted,
            final(self)@ == (MockBusView { transmitted: seq![], ..old(self)@ }),
    {
        let mut vecFrames: Vec<CanFrame> = Vec::new();
        vecFrames.append(&mut self.m_vecTransmitted);
        assert(vecFrames@ =~= old(self)@.transmitted);
        assert(self@.transmitted =~= seq![]);
        vecFrames
    }

    /// Put a frame on the bus.
    pub fn SendFrame(&mut self, frame: CanFrame)
        ensures
            final(self)@ == (MockBusView {
                transmitted: old(self)@.transmitted.push(frame),
                ..old(self)@
            }),
    {
        self.m_vecTransmitted.push(frame);
    }

    /// Take whatever has arrived since the last call.
    pub fn ReceiveFrames(&mut self) -> (vecFrames: Vec<CanFrame>)
        ensures
            vecFrames@ == old(self)@.inbound,
            final(self)@ == (MockBusView { inbound: seq![], ..old(self)@ }),
    {
        DrainFrames(&mut self.m_queueInbound)
    }

    /// What this bus is called in logs.
    pub fn Describe(&self) -> (strName: &'static str)
        ensures
            strName@ == "in-memory mock bus"@,
    {
        "in-memory mock bus"
    }
}

} // verus!
