//! What the viewer shows: the loaded image's sequence and its place in it,
//! the remote file still awaited, and the texture on screen.
use vstd::prelude::*;
use crate::image_cache::DecodedImage;
use crate::loading::Fetch;
use crate::navigation::{continues_sequence, sequence_position, step_target, clamped_target};

verus! {

/// How loading a file with a given sequence key changes the view.
#[derive(Clone, Copy, PartialEq, Eq, Structural, Debug)]
pub struct Arrival {
    /// An unrelated image starts fresh (zoom, pan, exposure, gamma);
    /// stepping through a numbered sequence holds the view steady.
    pub reset_view: bool,
    /// The sequence is to be found anew: for an unrelated image, and, when
    /// browsing a remote machine, while it is only the one file (its folder's
    /// listing had not yet arrived), so it is rebuilt once the folder is
    /// known. Locally the sequence of an unchanged key is kept.
    pub rebuild: bool,
}

/// What the viewer shows of a sequence.
pub struct Viewing {
    /// Files of the loaded image's sequence, in frame order.
    pub sequence: Vec<String>,
    /// Position of the loaded image in the sequence.
    pub index: usize,
    /// Sequence key of the loaded image.
    pub last_key: Option<String>,
    /// A remote file whose bytes are awaited; it is loaded again each frame.
    pub pending: Option<String>,
    /// Size of the texture on screen.
    pub texture_size: [u32; 2],
    /// Whether the texture on screen holds float texels.
    pub texture_hdr: bool,
}

impl Viewing {
    /// Nothing shown yet.
    pub fn new() -> (v: Self)
        ensures
            v.sequence@ == Seq::<String>::empty(),
            v.index == 0,
            v.last_key is None,
            v.pending is None,
            v.texture_size == [0u32, 0u32],
            !v.texture_hdr,
    {
        Viewing {
            sequence: Vec::new(),
            index: 0,
            last_key: None,
            pending: None,
            texture_size: [0, 0],
            texture_hdr: false,
        }
    }

    /// Takes note of how loading `path` went: while its bytes are on their
    /// way it is awaited (and loaded again next frame); otherwise nothing
    /// is.
    pub fn fetched(&mut self, path: &str, fetch: &Fetch)
        ensures
            fetch is Pending ==> (final(self).pending matches Some(p) && p@ == path@),
            !(fetch is Pending) ==> final(self).pending is None,
            final(self).sequence == old(self).sequence,
            final(self).index == old(self).index,
            final(self).last_key == old(self).last_key,
            final(self).texture_size == old(self).texture_size,
            final(self).texture_hdr == old(self).texture_hdr,
    {
        self.pending = match fetch {
            Fetch::Pending => Some(path.to_string()),
            _ => None,
        };
    }

    /// Puts `image` on screen. The texture's format is baked into the GPU
    /// pipeline, so a change of kind needs a fresh texture just as a change
    /// of size does; returns whether one is needed.
    pub fn show(&mut self, image: &DecodedImage) -> (fresh: bool)
        ensures
            fresh == (image.size != old(self).texture_size || image.is_hdr != old(self).texture_hdr),
            final(self).texture_size == image.size,
            final(self).texture_hdr == image.is_hdr,
            final(self).sequence == old(self).sequence,
            final(self).index == old(self).index,
            final(self).last_key == old(self).last_key,
            final(self).pending == old(self).pending,
    {
        let fresh = image.size[0] != self.texture_size[0] || image.size[1] != self.texture_size[1]
            || image.is_hdr != self.texture_hdr;
        proof {
            assert(fresh == (image.size != self.texture_size || image.is_hdr != self.texture_hdr)) by {
                if image.size[0] == self.texture_size[0] && image.size[1] == self.texture_size[1] {
                    assert(image.size =~= self.texture_size);
                }
            }
        }
        self.texture_size = image.size;
        self.texture_hdr = image.is_hdr;
        fresh
    }

    /// A file with sequence key `key` is being shown (`remote`: from a
    /// remote machine); it becomes the last key. Says whether the view resets
    /// and whether the sequence is found anew.
    pub fn arrive(&mut self, key: String, remote: bool) -> (a: Arrival)
        ensures
            a.reset_view == !(match old(self).last_key {
                Some(k) => k@ == key@,
                None => false,
            }),
            a.rebuild == (a.reset_view || (remote && old(self).sequence@.len() < 2)),
            final(self).last_key == Some(key),
            final(self).sequence == old(self).sequence,
            final(self).index == old(self).index,
            final(self).pending == old(self).pending,
            final(self).texture_size == old(self).texture_size,
            final(self).texture_hdr == old(self).texture_hdr,
    {
        let reset_view = !continues_sequence(&self.last_key, key.as_str());
        let rebuild = reset_view || (remote && self.sequence.len() < 2);
        self.last_key = Some(key);
        Arrival { reset_view, rebuild }
    }

    /// Takes the sequence found anew, if any, and places `path` in it: at
    /// its first occurrence, or at the start when it is not there.
    pub fn place(&mut self, rebuilt: Option<Vec<String>>, path: &str)
        ensures
            final(self).sequence@ == (match rebuilt {
                Some(s) => s@,
                None => old(self).sequence@,
            }),
            (exists|i: int| 0 <= i < final(self).sequence@.len() && (#[trigger] final(self).sequence@[i])@ == path@)
                ==> {
                &&& final(self).index < final(self).sequence@.len()
                &&& final(self).sequence@[final(self).index as int]@ == path@
                &&& forall|j: int| 0 <= j < final(self).index ==> (#[trigger] final(self).sequence@[j])@ != path@
            },
            !(exists|i: int| 0 <= i < final(self).sequence@.len() && (#[trigger] final(self).sequence@[i])@ == path@)
                ==> final(self).index == 0,
            final(self).last_key == old(self).last_key,
            final(self).pending == old(self).pending,
            final(self).texture_size == old(self).texture_size,
            final(self).texture_hdr == old(self).texture_hdr,
    {
        if let Some(s) = rebuilt {
            self.sequence = s;
        }
        self.index = sequence_position(&self.sequence, path);
    }

    /// The file `delta` frames from the loaded one, clamped to the ends of
    /// the sequence: none when there is nothing to step through or the step
    /// stays where it is.
    pub fn step(&self, delta: isize) -> (target: Option<String>)
        ensures
            ({
                let len = self.sequence@.len() as int;
                let t = clamped_target(len, self.index as int, delta as int);
                if len < 2 || t == self.index {
                    target is None
                } else {
                    target matches Some(p) && p@ == self.sequence@[t]@
                }
            }),
    {
        match step_target(self.sequence.len(), self.index, delta) {
            Some(t) => Some(self.sequence[t].clone()),
            None => None,
        }
    }

    /// Leaving a remote machine: its sequence, key and awaited file no
    /// longer mean anything.
    pub fn forget(&mut self)
        ensures
            final(self).sequence@ == Seq::<String>::empty(),
            final(self).last_key is None,
            final(self).pending is None,
            final(self).index == old(self).index,
            final(self).texture_size == old(self).texture_size,
            final(self).texture_hdr == old(self).texture_hdr,
    {
        self.sequence = Vec::new();
        self.last_key = None;
        self.pending = None;
    }
}

} // verus!
