//! Moving frames in and out of a queue without changing their order.

use std::collections::VecDeque;

use vstd::prelude::*;

use crate::can::CanFrame;

verus! {

/// Put frames at the head of a queue, in their own order.
pub(crate) fn PrependFrames(queue: &mut VecDeque<CanFrame>, vecFrames: Vec<CanFrame>)
    ensures
        final(queue)@ == vecFrames@ + old(queue)@,
{
    let ghost all = vecFrames@;
    let mut vecRest = vecFrames;
    assert(all.take(all.len() as int) =~= all);
    assert(all.skip(all.len() as int) + queue@ =~= queue@);
    // Taken from the back and pushed to the front, which keeps the order.
    while vecRest.len() > 0
        invariant
            vecRest@.len() <= all.len(),
            vecRest@ == all.take(vecRest@.len() as int),
            queue@ == all.skip(vecRest@.len() as int) + old(queue)@,
        decreases vecRest@.len(),
    {
        if let Some(frame) = vecRest.pop() {
            queue.push_front(frame);
            assert(vecRest@ =~= all.take(vecRest@.len() as int));
            assert(queue@ =~= all.skip(vecRest@.len() as int) + old(queue)@);
        }
    }
    assert(all.skip(0) =~= all);
}

/// Put frames at the end of a queue, in their own order.
pub(crate) fn AppendFrames(queue: &mut VecDeque<CanFrame>, vecFrames: Vec<CanFrame>)
    ensures
        final(queue)@ == old(queue)@ + vecFrames@,
{
    let mut queueNew: VecDeque<CanFrame> = VecDeque::new();
    PrependFrames(&mut queueNew, vecFrames);
    assert(queueNew@ =~= vecFrames@);
    queue.append(&mut queueNew);
}

/// Take every frame out of a queue.
pub(crate) fn DrainFrames(queue: &mut VecDeque<CanFrame>) -> (vecFrames: Vec<CanFrame>)
    ensures
        vecFrames@ == old(queue)@,
        final(queue)@ == Seq::<CanFrame>::empty(),
{
    let mut vecFrames: Vec<CanFrame> = Vec::new();
    assert(vecFrames@ + queue@ =~= queue@);
    while queue.len() > 0
        invariant
            vecFrames@ + queue@ == old(queue)@,
        decreases queue@.len(),
    {
        if let Some(frame) = queue.pop_front() {
            vecFrames.push(frame);
            assert(vecFrames@ + queue@ =~= old(queue)@);
        }
    }
    assert(vecFrames@ =~= old(queue)@);
    assert(queue@ =~= Seq::<CanFrame>::empty());
    vecFrames
}

} // verus!
