//! Moving through a sequence: stepping with the arrow keys, finding where the
//! loaded file sits, and which neighbours to keep decoded.
use vstd::prelude::*;

verus! {

/// Where a step of `delta` frames from `index` lands, clamped to the ends of
/// a sequence of `len` frames.
pub open spec fn clamped_target(len: int, index: int, delta: int) -> int {
    if index + delta < 0 {
        0
    } else if index + delta > len - 1 {
        len - 1
    } else {
        index + delta
    }
}

/// The frame to load when moving `delta` frames from `index` in a sequence
/// of `len` frames: none when there is nothing to step through (fewer than
/// two frames) or when the step, clamped to the ends, stays where it is.
pub fn step_target(len: usize, index: usize, delta: isize) -> (target: Option<usize>)
    ensures
        target == (if len < 2 || clamped_target(len as int, index as int, delta as int) == index {
            None::<usize>
        } else {
            Some(clamped_target(len as int, index as int, delta as int) as usize)
        }),
{
    if len < 2 {
        return None;
    }
    let last: usize = len - 1;
    let target: usize = if delta < 0 {
        let back: usize = if delta == isize::MIN {
            (isize::MAX as usize) + 1
        } else {
            (-delta) as usize
        };
        if back > index {
            0
        } else if index - back > last {
            last
        } else {
            index - back
        }
    } else {
        let forward = delta as usize;
        if index > last || forward > last - index {
            last
        } else {
            index + forward
        }
    };
    if target == index {
        None
    } else {
        Some(target)
    }
}

/// The position of `path` in `sequence`, or 0 when it is not there.
pub fn sequence_position(sequence: &Vec<String>, path: &str) -> (pos: usize)
    ensures
        (exists|i: int| 0 <= i < sequence@.len() && (#[trigger] sequence@[i])@ == path@) ==> {
            &&& pos < sequence@.len()
            &&& sequence@[pos as int]@ == path@
            &&& forall|j: int| 0 <= j < pos ==> (#[trigger] sequence@[j])@ != path@
        },
        !(exists|i: int| 0 <= i < sequence@.len() && (#[trigger] sequence@[i])@ == path@) ==> pos == 0,
{
    let p = path.to_string();
    let mut i: usize = 0;
    while i < sequence.len()
        invariant
            i <= sequence.len(),
            p@ == path@,
            forall|j: int| 0 <= j < i ==> (#[trigger] sequence@[j])@ != path@,
        decreases sequence.len() - i,
    {
        if sequence[i] == p {
            return i;
        }
        i = i + 1;
    }
    0
}

/// First and one-past-last position of the frames within `radius` of
/// `index` in a sequence of `len` frames.
pub open spec fn window_bounds(len: int, index: int, radius: int) -> (int, int) {
    let lo = if index - radius < 0 { 0 } else { index - radius };
    let hi = if index + radius + 1 > len { len } else { index + radius + 1 };
    (lo, hi)
}

/// The frames to keep decoded around `index`: those within `radius` either
/// side, or only the current one when preloading is off.
pub open spec fn window_frames(sequence: Seq<String>, index: int, enabled: bool, radius: int) -> Seq<String> {
    let r = if enabled { radius } else { 0 };
    let (lo, hi) = window_bounds(sequence.len() as int, index, r);
    if lo < hi {
        sequence.subrange(lo, hi)
    } else {
        Seq::empty()
    }
}

/// The neighbours of frame `index` to keep decoded. With preloading off the
/// window collapses to the current frame, so dropping everything else also
/// frees what was held.
pub fn preload_window(sequence: &Vec<String>, index: usize, enabled: bool, radius: usize) -> (window: Vec<String>)
    ensures
        window@ == window_frames(sequence@, index as int, enabled, radius as int),
{
    let r: usize = if enabled { radius } else { 0 };
    let lo: usize = if index < r { 0 } else { index - r };
    let hi: usize = if index >= sequence.len() || r >= sequence.len() - index {
        sequence.len()
    } else {
        index + r + 1
    };
    let mut window: Vec<String> = Vec::new();
    if lo >= hi {
        return window;
    }
    let mut i: usize = lo;
    while i < hi
        invariant
            lo <= i <= hi,
            hi <= sequence.len(),
            window@ == sequence@.subrange(lo as int, i as int),
        decreases hi - i,
    {
        window.push(sequence[i].clone());
        proof {
            assert(sequence@.subrange(lo as int, i + 1) =~= sequence@.subrange(lo as int, i as int).push(
                sequence@[i as int],
            ));
        }
        i = i + 1;
    }
    window
}

/// Whether a file with sequence key `key` continues the sequence last
/// loaded, in which case the view (zoom, pan, exposure, gamma) holds steady.
pub fn continues_sequence(last_key: &Option<String>, key: &str) -> (same: bool)
    ensures
        same == (match last_key {
            Some(k) => k@ == key@,
            None => false,
        }),
{
    match last_key {
        Some(k) => *k == key.to_string(),
        None => false,
    }
}


/// A step never leaves the sequence and always moves; a step of one frame
/// either way moves to the neighbour, or nowhere at an end.
pub proof fn lemma_step_stays_inside(len: int, index: int, delta: int)
    requires
        len >= 2,
        0 <= index < len,
    ensures
        0 <= clamped_target(len, index, delta) < len,
        delta == 1 ==> clamped_target(len, index, delta) == (if index == len - 1 { index } else { index + 1 }),
        delta == -1 ==> clamped_target(len, index, delta) == (if index == 0 { index } else { index - 1 }),
{
}

/// The preload window holds the current frame, at most `radius` frames
/// either side of it, and only the current frame when preloading is off.
pub proof fn lemma_window_around_current(sequence: Seq<String>, index: int, enabled: bool, radius: int)
    requires
        0 <= index < sequence.len(),
        radius >= 0,
    ensures
        window_frames(sequence, index, enabled, radius).contains(sequence[index]),
        window_frames(sequence, index, enabled, radius).len() <= 2 * (if enabled { radius } else { 0 }) + 1,
        !enabled ==> window_frames(sequence, index, enabled, radius) == seq![sequence[index]],
{
    let r = if enabled { radius } else { 0 };
    let (lo, hi) = window_bounds(sequence.len() as int, index, r);
    let w = window_frames(sequence, index, enabled, radius);
    assert(w[index - lo] == sequence[index]);
    if !enabled {
        assert(w =~= seq![sequence[index]]);
    }
}

} // verus!
