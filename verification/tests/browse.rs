use optra::browse::Browse;
use optra::remote::Status;

#[test]
fn going_up_stops_at_the_top() {
    let mut b = Browse::new("/a/b");
    b.go_up();
    assert_eq!(b.tree_root, "/a");
    b.go_up();
    assert_eq!(b.tree_root, "/");
    b.go_up();
    assert_eq!(b.tree_root, "/");
}

#[test]
fn an_opened_file_roots_the_tree_at_its_folder() {
    let mut b = Browse::new("/home/me");
    b.follow_opened("/shots/seq/frame_0001.exr");
    assert_eq!(b.tree_root, "/shots/seq");
    assert_eq!(b.root_label(), "seq");
}

#[test]
fn the_top_folder_is_labelled_by_its_path() {
    let b = Browse::new("/");
    assert_eq!(b.root_label(), "/");
}

#[test]
fn disconnecting_restores_the_local_root() {
    let mut b = Browse::new("/home/me/pictures");
    b.dialog_open = true;
    b.start_connect();
    b.observe(Some(Status::Connecting));
    assert_eq!(b.tree_root, "/home/me/pictures");
    assert!(b.dialog_open);
    b.observe(Some(Status::Connected { home: "/home/remote".to_string() }));
    assert_eq!(b.tree_root, "/home/remote");
    assert!(b.remote_ready);
    assert!(!b.dialog_open);
    b.root_at("/srv/renders".to_string());
    b.observe(Some(Status::Connected { home: "/home/remote".to_string() }));
    assert_eq!(b.tree_root, "/srv/renders");
    b.disconnect();
    b.observe(None);
    assert_eq!(b.tree_root, "/home/me/pictures");
    assert!(!b.remote_ready);
}

#[test]
fn a_failed_connection_leaves_the_tree_alone() {
    let mut b = Browse::new("/data");
    b.dialog_open = true;
    b.start_connect();
    b.observe(Some(Status::Failed("refused".to_string())));
    assert_eq!(b.tree_root, "/data");
    assert!(b.dialog_open);
    assert!(!b.remote_ready);
}
