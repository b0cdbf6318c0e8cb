use std::sync::Arc;

use image::{DynamicImage, ImageFormat, RgbaImage};
use optra::image_cache::ImageCache;
use optra::loading::{fetch_remote, preload_remote, Fetch};
use optra::remote::{FileState, ListState, RemoteEntry, RemoteFs, Request, Status};
use optra::sequence::{discover_remote_sequence, sequence_key};

fn png_bytes() -> Vec<u8> {
    let mut bytes: Vec<u8> = Vec::new();
    DynamicImage::ImageRgba8(RgbaImage::new(3, 2))
        .write_to(&mut std::io::Cursor::new(&mut bytes), ImageFormat::Png)
        .unwrap();
    bytes
}

fn request_paths(requests: &[Request]) -> Vec<String> {
    requests
        .iter()
        .map(|r| match r {
            Request::List(p) => format!("list {p}"),
            Request::Fetch(p) => format!("fetch {p}"),
        })
        .collect()
}

#[test]
fn new_connection_starts_empty() {
    let mut fs = RemoteFs::new("example.org", "ann");
    assert_eq!(fs.label(), "ann@example.org");
    assert_eq!(fs.status(), Status::Connecting);
    assert!(fs.take_requests().is_empty());
}

#[test]
fn a_listing_is_requested_once_and_read_back() {
    let mut fs = RemoteFs::new("h", "u");
    assert!(matches!(fs.list("/home"), ListState::Loading));
    assert!(matches!(fs.list("/home"), ListState::Loading));
    assert_eq!(request_paths(&fs.take_requests()), vec!["list /home"]);

    fs.record_listing(
        "/home".to_string(),
        ListState::Ready(vec![RemoteEntry { path: "/home/a.png".to_string(), is_dir: false }]),
    );
    match fs.list("/home") {
        ListState::Ready(entries) => assert_eq!(entries[0].path, "/home/a.png"),
        _ => panic!("listing should be ready"),
    }
    fs.record_listing("/x".to_string(), ListState::Failed("denied".to_string()));
    assert!(matches!(fs.list("/x"), ListState::Failed(e) if e == "denied"));
    assert!(fs.take_requests().is_empty());
}

#[test]
fn requests_keep_their_order_and_files_can_be_forgotten() {
    let mut fs = RemoteFs::new("h", "u");
    fs.file("/f/1.exr");
    fs.list("/f");
    fs.file("/f/2.exr");
    assert_eq!(
        request_paths(&fs.take_requests()),
        vec!["fetch /f/1.exr", "list /f", "fetch /f/2.exr"]
    );
    fs.record_file("/f/1.exr".to_string(), FileState::Ready(Arc::new(vec![1, 2, 3])));
    assert!(matches!(fs.file("/f/1.exr"), FileState::Ready(b) if *b == vec![1, 2, 3]));
    fs.forget_file("/f/1.exr");
    // Forgotten bytes are asked for again; listings stay.
    assert!(matches!(fs.file("/f/1.exr"), FileState::Loading));
    assert!(matches!(fs.list("/f"), ListState::Loading));
    assert_eq!(request_paths(&fs.take_requests()), vec!["fetch /f/1.exr"]);
}

#[test]
fn status_is_what_the_worker_reported() {
    let mut fs = RemoteFs::new("h", "u");
    assert_eq!(fs.status(), Status::Connecting);
    fs.settle_status(Status::Connected { home: "/home/u".to_string() });
    assert_eq!(fs.status(), Status::Connected { home: "/home/u".to_string() });
    // Once connecting has ended, later reports do not change it.
    fs.settle_status(Status::Failed("no agent".to_string()));
    assert_eq!(fs.status(), Status::Connected { home: "/home/u".to_string() });

    let mut failed = RemoteFs::new("h", "u");
    failed.settle_status(Status::Failed("no agent".to_string()));
    assert_eq!(failed.status(), Status::Failed("no agent".to_string()));
}

#[test]
fn remote_sequence_waits_for_the_listing() {
    let mut fs = RemoteFs::new("h", "u");
    let path = "/shots/frame_2.exr";
    let key = sequence_key(path);
    assert_eq!(discover_remote_sequence(&mut fs, path, &key), vec![path]);
    assert_eq!(request_paths(&fs.take_requests()), vec!["list /shots"]);
    fs.record_listing(
        "/shots".to_string(),
        ListState::Ready(vec![
            RemoteEntry { path: "/shots/frame_10.exr".to_string(), is_dir: false },
            RemoteEntry { path: "/shots/frame_2.exr".to_string(), is_dir: false },
            RemoteEntry { path: "/shots/other.exr".to_string(), is_dir: false },
        ]),
    );
    assert_eq!(
        discover_remote_sequence(&mut fs, path, &key),
        vec!["/shots/frame_2.exr", "/shots/frame_10.exr"]
    );
}

#[test]
fn remote_files_are_fetched_decoded_and_cached() {
    let mut cache = ImageCache::new();
    let mut fs = RemoteFs::new("h", "u");
    assert!(matches!(fetch_remote(&mut cache, &mut fs, "/p/a.png"), Fetch::Pending));
    assert!(matches!(fetch_remote(&mut cache, &mut fs, "/p/a.png"), Fetch::Pending));
    assert_eq!(request_paths(&fs.take_requests()), vec!["fetch /p/a.png"]);

    fs.record_file("/p/a.png".to_string(), FileState::Ready(Arc::new(png_bytes())));
    match fetch_remote(&mut cache, &mut fs, "/p/a.png") {
        Fetch::Ready(img) => assert_eq!(img.size, [3, 2]),
        _ => panic!("bytes have arrived"),
    }
    assert!(cache.get("/p/a.png").is_some());
    // The raw bytes were dropped once decoded; the cache answers from now on.
    assert!(matches!(fetch_remote(&mut cache, &mut fs, "/p/a.png"), Fetch::Ready(_)));
    assert!(fs.take_requests().is_empty());

    fs.record_file("/p/bad.png".to_string(), FileState::Ready(Arc::new(b"junk".to_vec())));
    assert!(matches!(fetch_remote(&mut cache, &mut fs, "/p/bad.png"), Fetch::Failed(_)));
    fs.record_file("/p/gone.png".to_string(), FileState::Failed("no such file".to_string()));
    assert!(matches!(fetch_remote(&mut cache, &mut fs, "/p/gone.png"), Fetch::Failed(e) if e == "no such file"));
}

#[test]
fn preloading_remotely_asks_for_the_window() {
    let seq: Vec<String> = (0..5).map(|i| format!("/r/f{i}.exr")).collect();
    let mut cache = ImageCache::new();
    let mut fs = RemoteFs::new("h", "u");
    fs.record_file(seq[2].clone(), FileState::Ready(Arc::new(png_bytes())));
    preload_remote(&mut cache, &mut fs, &seq, 2, true, 1);
    assert_eq!(request_paths(&fs.take_requests()), vec!["fetch /r/f1.exr", "fetch /r/f3.exr"]);

    preload_remote(&mut cache, &mut fs, &seq, 2, false, 1);
    assert!(fs.take_requests().is_empty());
}
