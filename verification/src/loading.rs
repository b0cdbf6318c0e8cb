//! Getting the decoded pixels of the file to show: from the cache when the
//! preloader got there first, otherwise from the remote worker's bytes.
use vstd::prelude::*;
use std::sync::Arc;
use crate::image_cache::{ImageCache, DecodedImage, decode_bytes, decode_file_bytes, texel_size};
use crate::remote::{RemoteFs, FileState, FileView, RemoteView, after_file, file_answer};
use crate::navigation::{preload_window, window_frames};
use crate::text_map::text_set;

verus! {

/// Where a load stands.
pub enum Fetch {
    /// Decoded and ready to show.
    Ready(Arc<DecodedImage>),
    /// The bytes are still on their way; try again on a later frame.
    Pending,
    /// The file could not be fetched or decoded; the message says why.
    Failed(String),
}

/// What keeping the outcome of decoding `path` comes to, for a cache that
/// held `before` and holds `after`: a decoded image is cached under `path`
/// and returned; a failure is returned with its message and caches nothing.
pub open spec fn keeps(
    outcome: Result<DecodedImage, String>,
    path: Seq<char>,
    before: Map<Seq<char>, Arc<DecodedImage>>,
    after: Map<Seq<char>, Arc<DecodedImage>>,
    fetch: Fetch,
) -> bool {
    match outcome {
        Ok(d) => fetch matches Fetch::Ready(image) && *image == d && after == before.insert(path, image),
        Err(e) => fetch == Fetch::Failed(e) && after == before,
    }
}

/// Keeps the outcome of decoding `path`: a decoded image is cached, so
/// stepping back to it is instant, and returned; a failure is returned with
/// the decoder's message.
pub fn keep_decoded(cache: &mut ImageCache, path: &str, outcome: Result<DecodedImage, String>) -> (fetch: Fetch)
    ensures
        keeps(outcome, path@, old(cache).images(), final(cache).images(), fetch),
        final(cache).decoding() == old(cache).decoding(),
{
    match outcome {
        Ok(decoded) => {
            let image = Arc::new(decoded);
            cache.insert(path.to_string(), crate::image_cache::share(&image));
            Fetch::Ready(image)
        },
        Err(e) => Fetch::Failed(e),
    }
}

/// Gets the image for a remote `path`. A cached copy is used as it is.
/// Otherwise the bytes are asked of the remote connection (the first time
/// this requests them); once they have arrived they are decoded and the
/// outcome kept (see [`keep_decoded`]); after a successful decode the raw
/// bytes are forgotten, since keeping both would double the memory for
/// every frame.
pub fn fetch_remote(cache: &mut ImageCache, remote: &mut RemoteFs, path: &str) -> (fetch: Fetch)
    ensures
        final(cache).decoding() == old(cache).decoding(),
        old(cache).images().contains_key(path@) ==> {
            &&& fetch == Fetch::Ready(old(cache).images()[path@])
            &&& final(cache).images() == old(cache).images()
            &&& final(remote)@ == old(remote)@
        },
        !old(cache).images().contains_key(path@) ==> match file_answer(old(remote)@, path@) {
            FileView::Loading => {
                &&& fetch is Pending
                &&& final(cache).images() == old(cache).images()
                &&& final(remote)@ == after_file(old(remote)@, path@)
            },
            FileView::Failed(e) => {
                &&& fetch matches Fetch::Failed(m) && m@ == e
                &&& final(cache).images() == old(cache).images()
                &&& final(remote)@ == old(remote)@
            },
            FileView::Ready(bytes) => exists|s: &[u8], outcome: Result<DecodedImage, String>|
                {
                    &&& s@ == bytes
                    &&& #[trigger] call_ensures(decode_bytes, (s,), outcome)
                    &&& keeps(outcome, path@, old(cache).images(), final(cache).images(), fetch)
                    &&& final(remote)@ == (if outcome is Ok {
                        RemoteView { files: old(remote)@.files.remove(path@), ..old(remote)@ }
                    } else {
                        old(remote)@
                    })
                },
        },
{
    if let Some(image) = cache.get(path) {
        return Fetch::Ready(image);
    }
    match remote.file(path) {
        FileState::Loading => Fetch::Pending,
        FileState::Failed(e) => Fetch::Failed(e),
        FileState::Ready(bytes) => {
            let slice = bytes.as_slice();
            let outcome = decode_bytes(slice);
            let ghost o = outcome;
            let decoded = outcome.is_ok();
            let fetch = keep_decoded(cache, path, outcome);
            if decoded {
                remote.forget_file(path);
            }
            assert(call_ensures(decode_bytes, (slice,), o));
            fetch
        },
    }
}

/// Decodes what was read of the local file `path`: a failed read fails
/// with its message; read bytes are decoded as the file's extension says.
pub fn decode_read(read: Result<Vec<u8>, String>, path: &str) -> (r: Result<DecodedImage, String>)
    ensures
        read matches Err(e) ==> r == Err::<DecodedImage, String>(e),
        r matches Ok(d) ==> d.bytes.len() == texel_size(d.is_hdr) * (d.size[0] as int) * (d.size[1] as int),
        read matches Ok(b) ==> exists|s: &[u8]| s@ == b@ && #[trigger] call_ensures(decode_file_bytes, (s, path), r),
{
    match read {
        Ok(bytes) => {
            let s = bytes.as_slice();
            let r = decode_file_bytes(s, path);
            assert(call_ensures(decode_file_bytes, (s, path), r));
            r
        },
        Err(e) => Err(e),
    }
}

/// Gets the image for a local `path`: a cached copy is used as it is,
/// without reading the file; otherwise the file is read (by `read`),
/// decoded, and the outcome kept (see [`keep_decoded`]).
pub fn fetch_local<F: FnOnce() -> Result<Vec<u8>, String>>(cache: &mut ImageCache, path: &str, read: F) -> (fetch: Fetch)
    requires
        call_requires(read, ()),
    ensures
        final(cache).decoding() == old(cache).decoding(),
        old(cache).images().contains_key(path@) ==> {
            &&& fetch == Fetch::Ready(old(cache).images()[path@])
            &&& final(cache).images() == old(cache).images()
        },
        !old(cache).images().contains_key(path@) ==> exists|
            bytes: Result<Vec<u8>, String>,
            outcome: Result<DecodedImage, String>,
        |
            {
                &&& #[trigger] call_ensures(read, (), bytes)
                &&& #[trigger] call_ensures(decode_read, (bytes, path), outcome)
                &&& keeps(outcome, path@, old(cache).images(), final(cache).images(), fetch)
            },
{
    if let Some(image) = cache.get(path) {
        return Fetch::Ready(image);
    }
    let bytes = read();
    let ghost b = bytes;
    let outcome = decode_read(bytes, path);
    let ghost o = outcome;
    let fetch = keep_decoded(cache, path, outcome);
    assert(call_ensures(read, (), b));
    assert(call_ensures(decode_read, (b, path), o));
    fetch
}

/// The paths of `window`, in order, whose decode a local preload starts:
/// those neither held in `images`, nor being decoded, nor already started
/// earlier in the window.
pub open spec fn decodes_started(
    images: Map<Seq<char>, Arc<DecodedImage>>,
    decoding: Set<Seq<char>>,
    window: Seq<String>,
) -> Seq<String>
    decreases window.len(),
{
    if window.len() == 0 {
        Seq::empty()
    } else {
        let earlier = decodes_started(images, decoding, window.drop_last());
        let p = window.last();
        if !images.contains_key(p@) && !decoding.contains(p@) && !text_set(earlier).contains(p@) {
            earlier.push(p)
        } else {
            earlier
        }
    }
}

/// The remote state after asking for the bytes of each of `paths` in turn.
pub open spec fn files_asked(s: RemoteView, paths: Seq<String>) -> RemoteView
    decreases paths.len(),
{
    if paths.len() == 0 {
        s
    } else {
        after_file(files_asked(s, paths.drop_last()), paths.last()@)
    }
}

proof fn lemma_text_set_push(items: Seq<String>, p: String)
    ensures
        text_set(items.push(p)) == text_set(items).insert(p@),
{
    assert forall|k: Seq<char>| #[trigger] text_set(items.push(p)).contains(k) == text_set(items).insert(p@).contains(k) by {
        if text_set(items.push(p)).contains(k) {
            let j = choose|j: int| 0 <= j < items.push(p).len() && (#[trigger] items.push(p)[j])@ == k;
            if j < items.len() {
                assert(items.push(p)[j] == items[j]);
            }
        }
        if text_set(items).contains(k) {
            let j = choose|j: int| 0 <= j < items.len() && (#[trigger] items[j])@ == k;
            assert(items.push(p)[j] == items[j]);
        }
        if k == p@ {
            assert(items.push(p)[items.len() as int] == p);
        }
    }
    assert(text_set(items.push(p)) =~= text_set(items).insert(p@));
}

/// The frames of `window` that are neither held in `images` nor being
/// decoded.
pub open spec fn free_frames(
    images: Map<Seq<char>, Arc<DecodedImage>>,
    decoding: Set<Seq<char>>,
    window: Seq<String>,
) -> Set<Seq<char>> {
    text_set(window).filter(|p: Seq<char>| !images.contains_key(p) && !decoding.contains(p))
}

/// A preload claims every frame of the window that is neither held nor
/// being decoded, and nothing else: the frames after the current one (the
/// direction of scrubbing) as much as those before it.
pub proof fn lemma_every_free_frame_claimed(
    images: Map<Seq<char>, Arc<DecodedImage>>,
    decoding: Set<Seq<char>>,
    window: Seq<String>,
)
    ensures
        text_set(decodes_started(images, decoding, window)) == free_frames(images, decoding, window),
        forall|k: int|
            0 <= k < window.len() && !images.contains_key(#[trigger] window[k]@) && !decoding.contains(window[k]@)
                ==> text_set(decodes_started(images, decoding, window)).contains(window[k]@),
    decreases window.len(),
{
    if window.len() == 0 {
        assert(text_set(Seq::<String>::empty()) =~= Set::<Seq<char>>::empty());
        assert(text_set(window) =~= Set::<Seq<char>>::empty());
        assert(free_frames(images, decoding, window) =~= Set::<Seq<char>>::empty());
    } else {
        let w = window.drop_last();
        let p = window.last();
        lemma_every_free_frame_claimed(images, decoding, w);
        let earlier = decodes_started(images, decoding, w);
        assert(window =~= w.push(p));
        lemma_text_set_push(w, p);
        if !images.contains_key(p@) && !decoding.contains(p@) && !text_set(earlier).contains(p@) {
            lemma_text_set_push(earlier, p);
        }
        assert(free_frames(images, decoding, window) =~= text_set(decodes_started(images, decoding, window)));
    }
    let started = decodes_started(images, decoding, window);
    assert forall|k: int|
        0 <= k < window.len() && !images.contains_key(#[trigger] window[k]@) && !decoding.contains(window[k]@)
            implies text_set(started).contains(window[k]@) by {
        assert(text_set(window).contains(window[k]@));
        assert(free_frames(images, decoding, window).contains(window[k]@));
    }
}

/// Keeps the frames around `index` decoded, when browsing locally: drops every
/// cached image outside the window (bounding memory first), then, with
/// preloading on, claims the decode of each frame of the window that is
/// neither held nor being decoded. Returns the claimed paths, in window
/// order, for the caller to decode and report with
/// [`ImageCache::complete`]. An empty sequence leaves everything alone.
pub fn preload_local(
    cache: &mut ImageCache,
    sequence: &Vec<String>,
    index: usize,
    enabled: bool,
    radius: usize,
) -> (started: Vec<String>)
    ensures
        ({
            let window = window_frames(sequence@, index as int, enabled, radius as int);
            let kept = old(cache).images().restrict(text_set(window));
            if sequence@.len() == 0 {
                &&& started@ == Seq::<String>::empty()
                &&& final(cache).images() == old(cache).images()
                &&& final(cache).decoding() == old(cache).decoding()
            } else if !enabled {
                &&& started@ == Seq::<String>::empty()
                &&& final(cache).images() == kept
                &&& final(cache).decoding() == old(cache).decoding()
            } else {
                &&& started@ == decodes_started(kept, old(cache).decoding(), window)
                &&& final(cache).images() == kept
                &&& final(cache).decoding() == old(cache).decoding().union(text_set(started@))
                &&& text_set(started@) == free_frames(kept, old(cache).decoding(), window)
            }
        }),
{
    let mut started: Vec<String> = Vec::new();
    if sequence.len() == 0 {
        return started;
    }
    let window = preload_window(sequence, index, enabled, radius);
    cache.retain(&window);
    if !enabled {
        return started;
    }
    let ghost images = cache.images();
    let ghost decoding0 = cache.decoding();
    proof {
        assert(text_set(started@) =~= Set::<Seq<char>>::empty());
        assert(decoding0.union(text_set(started@)) =~= decoding0);
        assert(window@.take(0) =~= Seq::<String>::empty());
    }
    let mut i: usize = 0;
    while i < window.len()
        invariant
            i <= window.len(),
            cache.images() == images,
            cache.decoding() == decoding0.union(text_set(started@)),
            started@ == decodes_started(images, decoding0, window@.take(i as int)),
        decreases window.len() - i,
    {
        let ghost before = started@;
        proof {
            assert(window@.take(i + 1).drop_last() =~= window@.take(i as int));
            assert(window@.take(i + 1).last() == window@[i as int]);
        }
        if cache.request(window[i].as_str()) {
            started.push(window[i].clone());
            proof {
                lemma_text_set_push(before, window@[i as int]);
                assert(decoding0.union(text_set(before)).insert(window@[i as int]@) =~= decoding0.union(
                    text_set(before).insert(window@[i as int]@),
                ));
            }
        }
        i = i + 1;
    }
    proof {
        assert(window@.take(window.len() as int) =~= window@);
        lemma_every_free_frame_claimed(images, decoding0, window@);
    }
    started
}

/// Keeps the frames around `index` ready, when browsing a remote machine:
/// drops every cached image outside the window, then, with preloading on,
/// asks for the bytes of each frame of the window, so the worker fetches
/// them in the background and only the decode remains when the user steps.
/// An empty sequence leaves everything alone.
pub fn preload_remote(
    cache: &mut ImageCache,
    remote: &mut RemoteFs,
    sequence: &Vec<String>,
    index: usize,
    enabled: bool,
    radius: usize,
)
    ensures
        ({
            let window = window_frames(sequence@, index as int, enabled, radius as int);
            &&& final(cache).decoding() == old(cache).decoding()
            &&& if sequence@.len() == 0 {
                final(cache).images() == old(cache).images() && final(remote)@ == old(remote)@
            } else {
                &&& final(cache).images() == old(cache).images().restrict(text_set(window))
                &&& final(remote)@ == (if enabled {
                    files_asked(old(remote)@, window)
                } else {
                    old(remote)@
                })
            }
        }),
{
    if sequence.len() == 0 {
        return;
    }
    let window = preload_window(sequence, index, enabled, radius);
    cache.retain(&window);
    if !enabled {
        return;
    }
    let ghost s0 = remote@;
    proof {
        assert(window@.take(0) =~= Seq::<String>::empty());
    }
    let mut i: usize = 0;
    while i < window.len()
        invariant
            i <= window.len(),
            remote@ == files_asked(s0, window@.take(i as int)),
        decreases window.len() - i,
    {
        proof {
            assert(window@.take(i + 1).drop_last() =~= window@.take(i as int));
            assert(window@.take(i + 1).last() == window@[i as int]);
        }
        remote.file(window[i].as_str());
        i = i + 1;
    }
    proof {
        assert(window@.take(window.len() as int) =~= window@);
    }
}

} // verus!
