use optra::browse::Browse;
use optra::remote::RemoteEntry;
use optra::tree::{hidden, image_extension, listed_image, tree_listing};

fn entry(path: &str, is_dir: bool) -> RemoteEntry {
    RemoteEntry { path: path.to_string(), is_dir }
}

#[test]
fn path_parts_come_from_std_path() {
    assert_eq!(Browse::new("/a/b/c.exr").root_label(), "c.exr");
    assert_eq!(Browse::new("/").root_label(), "/");
    let mut b = Browse::new("/a/b/c.exr");
    b.go_up();
    assert_eq!(b.tree_root, "/a/b");
    let mut top = Browse::new("/");
    top.go_up();
    assert_eq!(top.tree_root, "/");
    assert!(listed_image("/a/b/c.EXR"));
    assert!(listed_image("/a/b/c.Png"));
    assert!(!listed_image("/a/b/noext"));
    // A name that only begins with a dot has no extension.
    assert!(!listed_image("/a/.png"));
    assert!(listed_image("/a/.x.png"));
    assert!(!listed_image("/a/b.png."));
}

#[test]
fn dotfiles_are_hidden() {
    assert!(hidden("/a/.secret.png"));
    assert!(!hidden("/a/visible.png"));
    assert!(!hidden("/"));
}

#[test]
fn image_extensions_in_any_case() {
    assert!(image_extension("png"));
    assert!(image_extension("hdr"));
    assert!(!image_extension("PNG"));
    assert!(!image_extension("txt"));
    assert!(listed_image("/a/b.PNG"));
    assert!(listed_image("/a/b.Exr"));
    assert!(!listed_image("/a/b.txt"));
    assert!(!listed_image("/a/b"));
}

#[test]
fn tree_shows_sorted_folders_and_images_only() {
    let entries = vec![
        entry("/r/zeta", true),
        entry("/r/b.png", false),
        entry("/r/.git", true),
        entry("/r/notes.txt", false),
        entry("/r/alpha", true),
        entry("/r/A.JPG", false),
        entry("/r/.hidden.png", false),
        entry("/r/folder.png", true),
    ];
    let listing = tree_listing(&entries);
    assert_eq!(listing.dirs, vec!["/r/alpha", "/r/folder.png", "/r/zeta"]);
    assert_eq!(listing.files, vec!["/r/A.JPG", "/r/b.png"]);
}
