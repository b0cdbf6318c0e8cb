use std::sync::Arc;

use optra::image_cache::DecodedImage;
use optra::loading::Fetch;
use optra::open_file::{queue, take_latest};
use optra::viewing::Viewing;

fn image(size: [u32; 2], is_hdr: bool) -> DecodedImage {
    DecodedImage { size, bytes: Vec::new(), is_hdr }
}

#[test]
fn an_awaited_remote_file_is_remembered_until_it_arrives() {
    let mut v = Viewing::new();
    v.fetched("/r/a.exr", &Fetch::Pending);
    assert_eq!(v.pending.as_deref(), Some("/r/a.exr"));
    v.fetched("/r/a.exr", &Fetch::Ready(Arc::new(image([1, 1], false))));
    assert!(v.pending.is_none());
    v.fetched("/r/b.exr", &Fetch::Pending);
    v.fetched("/r/b.exr", &Fetch::Failed("gone".to_string()));
    assert!(v.pending.is_none());
}

#[test]
fn a_new_texture_only_for_a_new_size_or_kind() {
    let mut v = Viewing::new();
    assert!(v.show(&image([4, 3], false)));
    assert!(!v.show(&image([4, 3], false)));
    assert!(v.show(&image([4, 3], true)));
    assert!(v.show(&image([5, 3], true)));
    assert_eq!(v.texture_size, [5, 3]);
    assert!(v.texture_hdr);
}

#[test]
fn a_one_file_sequence_is_rebuilt_on_the_next_load() {
    let mut v = Viewing::new();
    let a = v.arrive("/r/frame_#.exr".to_string(), true);
    assert!(a.reset_view && a.rebuild);
    // The listing had not arrived: the sequence is the one file.
    v.place(Some(vec!["/r/frame_2.exr".to_string()]), "/r/frame_2.exr");
    let a = v.arrive("/r/frame_#.exr".to_string(), true);
    assert!(!a.reset_view, "same sequence keeps the view");
    assert!(a.rebuild, "one remote file is found anew");
    v.place(
        Some(vec!["/r/frame_1.exr".to_string(), "/r/frame_2.exr".to_string(), "/r/frame_3.exr".to_string()]),
        "/r/frame_2.exr",
    );
    assert_eq!(v.index, 1);
    let a = v.arrive("/r/frame_#.exr".to_string(), true);
    assert!(!a.reset_view && !a.rebuild);
    v.place(None, "/r/frame_3.exr");
    assert_eq!(v.index, 2);
    assert_eq!(v.step(1), None, "already at the end");
    assert_eq!(v.step(-1).as_deref(), Some("/r/frame_2.exr"));
    assert_eq!(v.step(-10).as_deref(), Some("/r/frame_1.exr"));
    let a = v.arrive("/r/other.png".to_string(), true);
    assert!(a.reset_view && a.rebuild);
}

#[test]
fn locally_an_unchanged_key_keeps_its_sequence() {
    let mut v = Viewing::new();
    let a = v.arrive("/l/only_#.png".to_string(), false);
    assert!(a.reset_view && a.rebuild);
    v.place(Some(vec!["/l/only_1.png".to_string()]), "/l/only_1.png");
    let a = v.arrive("/l/only_#.png".to_string(), false);
    assert!(!a.reset_view && !a.rebuild);
}

#[test]
fn a_file_outside_its_sequence_is_placed_first() {
    let mut v = Viewing::new();
    v.place(Some(vec!["/x/1.png".to_string(), "/x/2.png".to_string()]), "/y/9.png");
    assert_eq!(v.index, 0);
}

#[test]
fn leaving_a_remote_machine_forgets_its_sequence() {
    let mut v = Viewing::new();
    v.arrive("/r/f_#.exr".to_string(), true);
    v.place(Some(vec!["/r/f_1.exr".to_string(), "/r/f_2.exr".to_string()]), "/r/f_1.exr");
    v.fetched("/r/f_2.exr", &Fetch::Pending);
    v.forget();
    assert!(v.sequence.is_empty());
    assert!(v.last_key.is_none());
    assert!(v.pending.is_none());
    assert_eq!(v.step(1), None);
}

#[test]
fn the_latest_opened_file_wins() {
    let mut pending: Vec<String> = Vec::new();
    assert_eq!(take_latest(&mut pending), None);
    queue(&mut pending, "/a.exr".to_string());
    queue(&mut pending, "/b.exr".to_string());
    assert_eq!(take_latest(&mut pending).as_deref(), Some("/b.exr"));
    assert!(pending.is_empty());
}
