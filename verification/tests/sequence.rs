use optra::navigation::{continues_sequence, preload_window, sequence_position, step_target};
use optra::remote::RemoteEntry;
use optra::sequence::{
    collapse_digit_runs, digit_runs, digit_runs_of_name, key_from_parts, sequence_from_listing,
    sequence_key,
};

fn same(a: &str, b: &str) -> bool {
    sequence_key(a) == sequence_key(b)
}

fn file(path: &str) -> RemoteEntry {
    RemoteEntry { path: path.to_string(), is_dir: false }
}

fn folder(path: &str) -> RemoteEntry {
    RemoteEntry { path: path.to_string(), is_dir: true }
}

#[test]
fn numbered_sequences_match() {
    assert!(same("/img/000_image.png", "/img/001_image.png"));
    assert!(same("/img/frame_0001.exr", "/img/frame_9999.exr"));
    assert!(same("/img/render.001.exr", "/img/render.242.exr"));
    // Digit-run length may differ.
    assert!(same("/img/frame_7.exr", "/img/frame_00007.exr"));
}

#[test]
fn unrelated_images_do_not_match() {
    assert!(!same("/img/frame_001.exr", "/img/render_001.exr"));
    assert!(!same("/img/frame_001.exr", "/img/frame_001.png"));
    // Same name, different folder.
    assert!(!same("/a/frame_001.exr", "/b/frame_001.exr"));
}

#[test]
fn sequence_is_ordered_numerically_and_excludes_others() {
    let dir = "/tmp/optra_seq_test";
    let entries: Vec<RemoteEntry> = [
        "frame_9.exr",
        "frame_10.exr",
        "frame_00002.exr",
        "render_1.exr", // different sequence
        "frame_1.png",  // different extension
        "notes.txt",
    ]
    .iter()
    .map(|n| file(&format!("{dir}/{n}")))
    .collect();

    let start = format!("{dir}/frame_9.exr");
    let seq = sequence_from_listing(&entries, &sequence_key(&start));
    let names: Vec<String> = seq
        .iter()
        .map(|p| p.rsplit('/').next().unwrap().to_string())
        .collect();

    // Numeric order, not lexicographic -- which would put 10 before 9.
    assert_eq!(names, vec!["frame_00002.exr", "frame_9.exr", "frame_10.exr"]);
}

#[test]
fn sequence_key_formula() {
    assert_eq!(sequence_key("/img/000_image.png"), "/img/#_image.png");
    assert_eq!(sequence_key("/img/frame_0042.exr"), "/img/frame_#.exr");
    assert_eq!(sequence_key("/img/render.001.exr"), "/img/render.#.exr");
    assert_eq!(sequence_key("a1b22c333"), "/a#b#c#");
    // No parent and no name both count as empty.
    assert_eq!(key_from_parts(&None, &None), "/");
    assert_eq!(
        key_from_parts(&Some("dir".to_string()), &Some("x12y".to_string())),
        "dir/x#y"
    );
}

#[test]
fn collapse_digit_runs_of_plain_and_digit_names() {
    let collapse = |s: &str| collapse_digit_runs(s).into_iter().collect::<String>();
    assert_eq!(collapse(""), "");
    assert_eq!(collapse("abc"), "abc");
    assert_eq!(collapse("123"), "#");
    assert_eq!(collapse("1a2"), "#a#");
}

#[test]
fn digit_runs_formula() {
    assert_eq!(digit_runs("/x/render.12.0034.exr"), vec![12, 34]);
    assert_eq!(digit_runs_of_name("no digits"), Vec::<u64>::new());
    assert_eq!(digit_runs_of_name("7"), vec![7]);
    // Too large for u64: saturates.
    assert_eq!(digit_runs_of_name("a99999999999999999999999b1"), vec![u64::MAX, 1]);
    assert_eq!(digit_runs_of_name("18446744073709551615"), vec![u64::MAX]);
    assert_eq!(digit_runs_of_name("18446744073709551614"), vec![u64::MAX - 1]);
    // The folder does not count.
    assert_eq!(digit_runs("/2024/frame_5.exr"), vec![5]);
}

#[test]
fn sequence_skips_folders_and_other_folders() {
    let entries = vec![
        folder("/d/frame_3.exr"),
        file("/d/frame_2.exr"),
        file("/e/frame_1.exr"),
        file("/d/frame_1.exr"),
    ];
    let seq = sequence_from_listing(&entries, &sequence_key("/d/frame_5.exr"));
    assert_eq!(seq, vec!["/d/frame_1.exr", "/d/frame_2.exr"]);
}

#[test]
fn sequence_orders_run_by_run() {
    let entries = vec![
        file("/d/shot2_f10.exr"),
        file("/d/shot10_f1.exr"),
        file("/d/shot2_f9.exr"),
    ];
    let seq = sequence_from_listing(&entries, &sequence_key("/d/shot1_f1.exr"));
    assert_eq!(seq, vec!["/d/shot2_f9.exr", "/d/shot2_f10.exr", "/d/shot10_f1.exr"]);
}

#[test]
fn equal_numbers_fall_back_to_the_name() {
    let entries = vec![file("/d/f_01.exr"), file("/d/f_1.exr"), file("/d/f_001.exr")];
    let seq = sequence_from_listing(&entries, &sequence_key("/d/f_1.exr"));
    assert_eq!(seq, vec!["/d/f_001.exr", "/d/f_01.exr", "/d/f_1.exr"]);
}

#[test]
fn stepping_is_clamped_to_the_ends() {
    assert_eq!(step_target(5, 2, 1), Some(3));
    assert_eq!(step_target(5, 2, -1), Some(1));
    assert_eq!(step_target(5, 4, 1), None);
    assert_eq!(step_target(5, 0, -1), None);
    assert_eq!(step_target(5, 1, -10), Some(0));
    assert_eq!(step_target(5, 1, 10), Some(4));
    assert_eq!(step_target(5, 1, isize::MIN), Some(0));
    assert_eq!(step_target(5, 1, isize::MAX), Some(4));
    // Nothing to step through.
    assert_eq!(step_target(1, 0, 1), None);
    assert_eq!(step_target(0, 0, 1), None);
}

#[test]
fn position_in_sequence_or_zero() {
    let seq = vec!["/a/1".to_string(), "/a/2".to_string(), "/a/3".to_string()];
    assert_eq!(sequence_position(&seq, "/a/3"), 2);
    assert_eq!(sequence_position(&seq, "/a/9"), 0);
    assert_eq!(sequence_position(&Vec::new(), "/a/1"), 0);
}

#[test]
fn preload_window_is_clamped_and_collapses_when_off() {
    let seq: Vec<String> = (0..6).map(|i| format!("/s/f{i}")).collect();
    assert_eq!(preload_window(&seq, 3, true, 2), seq[1..6].to_vec());
    assert_eq!(preload_window(&seq, 0, true, 2), seq[0..3].to_vec());
    assert_eq!(preload_window(&seq, 5, true, 10), seq.clone());
    assert_eq!(preload_window(&seq, 3, false, 2), vec![seq[3].clone()]);
    assert_eq!(preload_window(&seq, 9, true, 1), Vec::<String>::new());
    assert_eq!(preload_window(&seq, 3, true, usize::MAX), seq.clone());
}

#[test]
fn view_holds_only_within_a_sequence() {
    let k = sequence_key("/a/frame_1.exr");
    assert!(continues_sequence(&Some(k.clone()), &sequence_key("/a/frame_2.exr")));
    assert!(!continues_sequence(&Some(k), &sequence_key("/a/other.exr")));
    assert!(!continues_sequence(&None, &sequence_key("/a/frame_2.exr")));
}
