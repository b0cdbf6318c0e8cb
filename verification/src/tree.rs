//! Which entries of a folder the file tree shows, and in what order.
use vstd::prelude::*;
use crate::text::{chars_of, chars_lt, text_lt, code_points, lemma_lex_lt_irreflexive, lemma_lex_lt_transitive, lemma_lex_lt_trichotomy};
use crate::text_map::same_text;
use crate::paths::{path_file_name, path_extension, lowercase, file_name_of, extension_of, to_lowercase};
use crate::remote::RemoteEntry;
use crate::sort::{Order, in_order, sort_vec};

verus! {

/// Paths in `str` order. Entries of one folder share everything up to their
/// names, so this is the order of the names, which is how `Path` sorts them.
pub struct TextOrder;

impl Order<String> for TextOrder {
    open spec fn precedes(&self, a: String, b: String) -> bool {
        text_lt(a@, b@)
    }

    proof fn lemma_precedes_transitive(&self, a: String, b: String, c: String) {
        lemma_lex_lt_transitive(code_points(a@), code_points(b@), code_points(c@));
    }

    proof fn lemma_precedes_irreflexive(&self, a: String) {
        lemma_lex_lt_irreflexive(code_points(a@));
    }

    proof fn lemma_not_precedes_transitive(&self, a: String, b: String, c: String) {
        lemma_lex_lt_trichotomy(code_points(a@), code_points(b@));
        lemma_lex_lt_trichotomy(code_points(b@), code_points(c@));
        lemma_lex_lt_irreflexive(code_points(a@));
        if text_lt(a@, b@) && text_lt(b@, c@) {
            lemma_lex_lt_transitive(code_points(a@), code_points(b@), code_points(c@));
        }
        if text_lt(c@, a@) && text_lt(a@, b@) {
            lemma_lex_lt_transitive(code_points(c@), code_points(a@), code_points(b@));
        }
        if text_lt(b@, c@) && text_lt(c@, a@) {
            lemma_lex_lt_transitive(code_points(b@), code_points(c@), code_points(a@));
        }
    }

    fn is_before(&self, a: &String, b: &String) -> (r: bool) {
        chars_lt(&chars_of(a.as_str()), &chars_of(b.as_str()))
    }
}

/// The extensions (lower case) of the files the tree lists.
pub open spec fn is_image_extension(ext: Seq<char>) -> bool {
    ||| ext == "png"@
    ||| ext == "jpg"@
    ||| ext == "jpeg"@
    ||| ext == "gif"@
    ||| ext == "bmp"@
    ||| ext == "tif"@
    ||| ext == "tiff"@
    ||| ext == "webp"@
    ||| ext == "tga"@
    ||| ext == "qoi"@
    ||| ext == "exr"@
    ||| ext == "hdr"@
}

/// The image extensions, in the order the tree's documentation lists them.
pub open spec fn image_extensions() -> Seq<Seq<char>> {
    seq![
        "png"@, "jpg"@, "jpeg"@, "gif"@, "bmp"@, "tif"@, "tiff"@, "webp"@, "tga"@, "qoi"@, "exr"@, "hdr"@,
    ]
}

/// The tree lists exactly the twelve image extensions: png, jpg, jpeg, gif,
/// bmp, tif, tiff, webp, tga, qoi, exr and hdr (compared lower-cased), and
/// no other.
pub proof fn lemma_listed_extensions_exactly(ext: Seq<char>)
    ensures
        is_image_extension(ext) <==> image_extensions().contains(ext),
{
    let list = image_extensions();
    if is_image_extension(ext) {
        if ext == "png"@ { assert(list[0] == ext); }
        else if ext == "jpg"@ { assert(list[1] == ext); }
        else if ext == "jpeg"@ { assert(list[2] == ext); }
        else if ext == "gif"@ { assert(list[3] == ext); }
        else if ext == "bmp"@ { assert(list[4] == ext); }
        else if ext == "tif"@ { assert(list[5] == ext); }
        else if ext == "tiff"@ { assert(list[6] == ext); }
        else if ext == "webp"@ { assert(list[7] == ext); }
        else if ext == "tga"@ { assert(list[8] == ext); }
        else if ext == "qoi"@ { assert(list[9] == ext); }
        else if ext == "exr"@ { assert(list[10] == ext); }
        else { assert(list[11] == ext); }
    }
    if list.contains(ext) {
        let i = choose|i: int| 0 <= i < list.len() && list[i] == ext;
        assert(0 <= i < 12);
    }
}

/// Dotfiles are hidden; they are mostly noise for an image viewer.
pub open spec fn is_hidden(path: Seq<char>) -> bool {
    match path_file_name(path) {
        Some(name) => name.len() > 0 && name[0] == '.',
        None => false,
    }
}

/// A file the tree lists: its extension, lower-cased, is an image extension.
pub open spec fn is_listed_image(path: Seq<char>) -> bool {
    match path_extension(path) {
        Some(ext) => is_image_extension(lowercase(ext)),
        None => false,
    }
}

/// The folders of a listing that the tree shows, in listing order.
pub open spec fn shown_dirs(entries: Seq<RemoteEntry>) -> Seq<String>
    decreases entries.len(),
{
    if entries.len() == 0 {
        Seq::empty()
    } else {
        let rest = shown_dirs(entries.drop_last());
        let e = entries.last();
        if !is_hidden(e.path@) && e.is_dir {
            rest.push(e.path)
        } else {
            rest
        }
    }
}

/// The image files of a listing that the tree shows, in listing order.
pub open spec fn shown_files(entries: Seq<RemoteEntry>) -> Seq<String>
    decreases entries.len(),
{
    if entries.len() == 0 {
        Seq::empty()
    } else {
        let rest = shown_files(entries.drop_last());
        let e = entries.last();
        if !is_hidden(e.path@) && !e.is_dir && is_listed_image(e.path@) {
            rest.push(e.path)
        } else {
            rest
        }
    }
}

/// Whether `ext` (already lower-cased) is one of the image extensions.
pub fn image_extension(ext: &str) -> (r: bool)
    ensures
        r == is_image_extension(ext@),
{
    let e = chars_of(ext);
    same_text(&e, &chars_of("png")) || same_text(&e, &chars_of("jpg")) || same_text(&e, &chars_of("jpeg"))
        || same_text(&e, &chars_of("gif")) || same_text(&e, &chars_of("bmp")) || same_text(&e, &chars_of("tif"))
        || same_text(&e, &chars_of("tiff")) || same_text(&e, &chars_of("webp")) || same_text(&e, &chars_of("tga"))
        || same_text(&e, &chars_of("qoi")) || same_text(&e, &chars_of("exr")) || same_text(&e, &chars_of("hdr"))
}

/// Whether the file name of `path` starts with a dot.
pub fn hidden(path: &str) -> (r: bool)
    ensures
        r == is_hidden(path@),
{
    match file_name_of(path) {
        Some(name) => {
            let c = chars_of(name.as_str());
            c.len() > 0 && c[0] == '.'
        },
        None => false,
    }
}

/// Whether `path` has an image extension, in any case (`PNG`, `Exr`).
pub fn listed_image(path: &str) -> (r: bool)
    ensures
        r == is_listed_image(path@),
{
    match extension_of(path) {
        Some(ext) => image_extension(to_lowercase(ext.as_str()).as_str()),
        None => false,
    }
}

/// What the tree shows of one folder: its sub-folders, then its image files,
/// each sorted by path.
pub struct TreeListing {
    pub dirs: Vec<String>,
    pub files: Vec<String>,
}

/// Sorts a folder listing for the tree: dotfiles are skipped, folders are
/// always shown, and files only when their extension is an image one.
pub fn tree_listing(entries: &Vec<RemoteEntry>) -> (listing: TreeListing)
    ensures
        listing.dirs@.to_multiset() == shown_dirs(entries@).to_multiset(),
        in_order(TextOrder, listing.dirs@),
        listing.files@.to_multiset() == shown_files(entries@).to_multiset(),
        in_order(TextOrder, listing.files@),
{
    let mut dirs: Vec<String> = Vec::new();
    let mut files: Vec<String> = Vec::new();
    let mut i: usize = 0;
    while i < entries.len()
        invariant
            i <= entries.len(),
            dirs@ == shown_dirs(entries@.take(i as int)),
            files@ == shown_files(entries@.take(i as int)),
        decreases entries.len() - i,
    {
        let e = &entries[i];
        proof {
            assert(entries@.take(i + 1).drop_last() =~= entries@.take(i as int));
        }
        if !hidden(e.path.as_str()) {
            if e.is_dir {
                dirs.push(e.path.clone());
            } else if listed_image(e.path.as_str()) {
                files.push(e.path.clone());
            }
        }
        i = i + 1;
    }
    proof {
        assert(entries@.take(entries.len() as int) =~= entries@);
    }
    TreeListing { dirs: sort_vec(&TextOrder, dirs), files: sort_vec(&TextOrder, files) }
}

} // verus!
