//! Files to open arrive at times the viewer does not control (the command
//! line, a drop onto the window, the desktop asking it to open a document),
//! so nothing loads an image directly: everything is queued, and the queue is
//! drained once per frame.
use vstd::prelude::*;

verus! {

/// Queues a file to be opened on the next frame.
pub fn queue(pending: &mut Vec<String>, path: String)
    ensures
        final(pending)@ == old(pending)@.push(path),
{
    pending.push(path);
}

/// Takes everything queued so far, oldest first, leaving the queue empty.
pub fn take(pending: &mut Vec<String>) -> (taken: Vec<String>)
    ensures
        taken@ == old(pending)@,
        final(pending)@ == Seq::<String>::empty(),
{
    let mut taken: Vec<String> = Vec::new();
    std::mem::swap(&mut taken, pending);
    taken
}


/// Takes everything queued so far and returns the most recent, the one to
/// open; the earlier ones are superseded. The queue is left empty.
pub fn take_latest(pending: &mut Vec<String>) -> (latest: Option<String>)
    ensures
        latest == (if old(pending)@.len() == 0 {
            None::<String>
        } else {
            Some(old(pending)@.last())
        }),
        final(pending)@ == Seq::<String>::empty(),
{
    let mut taken = take(pending);
    taken.pop()
}

} // verus!
