//! Numbered sequences: files whose names differ only in their numbers
//! (`frame_0007.exr`, `frame_0008.exr`) belong together, and are stepped
//! through in numeric order.
use vstd::prelude::*;
use crate::text::{
    is_digit, char_is_digit, chars_of, string_from_chars, lex_lt, code_points, u64_values,
    opt_lex_lt, opt_code_points, u64s_lt, opt_text_lt, chars_lt, lemma_lex_lt_irreflexive,
    lemma_lex_lt_transitive, lemma_lex_lt_trichotomy, lemma_opt_lex_lt_order,
};
use crate::sort::{Order, in_order, sort_vec};
use crate::remote::{RemoteEntry, RemoteFs, ListState, ListView, after_list, list_answer};
use crate::paths::{path_parent, path_file_name, text_or_empty, parent_of, file_name_of};

verus! {

/// `name` with each maximal run of ASCII digits replaced by a single `#`.
pub open spec fn collapse_digits(name: Seq<char>) -> Seq<char>
    decreases name.len(),
{
    if name.len() == 0 {
        Seq::empty()
    } else {
        let before = name.drop_last();
        if !is_digit(name.last()) {
            collapse_digits(before).push(name.last())
        } else if before.len() > 0 && is_digit(before.last()) {
            collapse_digits(before)
        } else {
            collapse_digits(before).push('#')
        }
    }
}

/// The sequence key of a file: its folder, `/`, and its name with the digit
/// runs collapsed. A missing folder or name counts as empty text.
pub open spec fn key_of_parts(parent: Option<Seq<char>>, name: Option<Seq<char>>) -> Seq<char> {
    text_or_empty(parent) + seq!['/'] + collapse_digits(text_or_empty(name))
}

/// The sequence key of a path, through what `Path` makes of it.
pub open spec fn key_of_path(path: Seq<char>) -> Seq<char> {
    key_of_parts(path_parent(path), path_file_name(path))
}

/// The digit-collapsed form of `name`.
pub fn collapse_digit_runs(name: &str) -> (out: Vec<char>)
    ensures
        out@ == collapse_digits(name@),
{
    let chars = chars_of(name);
    let mut out: Vec<char> = Vec::new();
    let mut in_digits = false;
    let mut i: usize = 0;
    while i < chars.len()
        invariant
            i <= chars.len(),
            chars@ == name@,
            out@ == collapse_digits(name@.take(i as int)),
            in_digits == (i > 0 && is_digit(name@[i - 1])),
        decreases chars.len() - i,
    {
        let c = chars[i];
        proof {
            let t = name@.take(i + 1);
            assert(t.drop_last() =~= name@.take(i as int));
            assert(t.last() == c);
        }
        if char_is_digit(c) {
            if !in_digits {
                out.push('#');
                in_digits = true;
            }
        } else {
            in_digits = false;
            out.push(c);
        }
        i = i + 1;
    }
    proof {
        assert(name@.take(chars.len() as int) =~= name@);
    }
    out
}

/// The key from the results of `Path::parent` and `Path::file_name`: the
/// folder, a `/`, then the name with each digit run collapsed to `#`.
pub fn key_from_parts(parent: &Option<String>, name: &Option<String>) -> (key: String)
    ensures
        key@ == key_of_parts(parent.deep_view(), name.deep_view()),
{
    let mut key: Vec<char> = match parent {
        Some(p) => chars_of(p.as_str()),
        None => Vec::new(),
    };
    key.push('/');
    let collapsed = match name {
        Some(n) => collapse_digit_runs(n.as_str()),
        None => collapse_digit_runs(""),
    };
    let ghost before = key@;
    let mut i: usize = 0;
    while i < collapsed.len()
        invariant
            i <= collapsed.len(),
            key@ == before + collapsed@.take(i as int),
        decreases collapsed.len() - i,
    {
        key.push(collapsed[i]);
        proof {
            assert(collapsed@.take(i + 1) =~= collapsed@.take(i as int).push(collapsed@[i as int]));
        }
        i = i + 1;
    }
    proof {
        assert(collapsed@.take(collapsed.len() as int) =~= collapsed@);
        reveal_strlit("");
        if name.is_none() {
            assert(text_or_empty(name.deep_view()) =~= ""@);
        }
    }
    string_from_chars(&key)
}

/// Collapses each run of digits in the file name to `#`, so files in a
/// numbered sequence share a key; the parent folder is included, so
/// identically-named files in different folders are not one sequence.
///
/// `000_image.png` -> `#_image.png`, `frame_0042.exr` -> `frame_#.exr`.
pub fn sequence_key(path: &str) -> (key: String)
    ensures
        key@ == key_of_path(path@),
{
    let parent = parent_of(path);
    let name = file_name_of(path);
    key_from_parts(&parent, &name)
}

/// Collapsing digit runs never introduces a character other than `#`.
pub proof fn lemma_collapse_keeps_absent(name: Seq<char>, c: char)
    requires
        !name.contains(c),
        c != '#',
    ensures
        !collapse_digits(name).contains(c),
    decreases name.len(),
{
    if name.len() > 0 {
        let before = name.drop_last();
        assert forall|k: int| 0 <= k < before.len() implies before[k] != c by {
            assert(before[k] == name[k]);
        }
        lemma_collapse_keeps_absent(before, c);
        let r = collapse_digits(before);
        assert forall|k: int| 0 <= k < collapse_digits(name).len() implies collapse_digits(name)[k] != c by {
            if k < r.len() {
                assert(collapse_digits(name)[k] == r[k]);
            } else {
                assert(name[name.len() - 1] == name.last());
            }
        }
    }
}

/// Two sequence keys agree exactly when the folders agree and the names agree
/// once their digit runs are collapsed: identically-named files in different
/// folders never share a key. (File names never hold the separator `/`.)
pub proof fn lemma_key_separates_folders(
    parent_a: Option<Seq<char>>,
    name_a: Option<Seq<char>>,
    parent_b: Option<Seq<char>>,
    name_b: Option<Seq<char>>,
)
    requires
        !text_or_empty(name_a).contains('/'),
        !text_or_empty(name_b).contains('/'),
    ensures
        (key_of_parts(parent_a, name_a) == key_of_parts(parent_b, name_b)) <==> (
        text_or_empty(parent_a) == text_or_empty(parent_b) && collapse_digits(
            text_or_empty(name_a),
        ) == collapse_digits(text_or_empty(name_b))),
{
    let pa = text_or_empty(parent_a);
    let pb = text_or_empty(parent_b);
    let ca = collapse_digits(text_or_empty(name_a));
    let cb = collapse_digits(text_or_empty(name_b));
    lemma_collapse_keeps_absent(text_or_empty(name_a), '/');
    lemma_collapse_keeps_absent(text_or_empty(name_b), '/');
    let ka = pa + seq!['/'] + ca;
    let kb = pb + seq!['/'] + cb;
    if ka == kb {
        if pa.len() < pb.len() {
            assert(kb[pb.len() as int] == '/');
            assert(ka[pb.len() as int] == ca[pb.len() - pa.len() - 1]);
            assert(false);
        } else if pb.len() < pa.len() {
            assert(ka[pa.len() as int] == '/');
            assert(kb[pa.len() as int] == cb[pa.len() - pb.len() - 1]);
            assert(false);
        }
        assert(pa =~= ka.take(pa.len() as int));
        assert(pb =~= kb.take(pb.len() as int));
        assert(ca =~= ka.skip(pa.len() as int + 1));
        assert(cb =~= kb.skip(pb.len() as int + 1));
    }
}

/// Decimal value of a text of digits.
pub open spec fn digits_value(digits: Seq<char>) -> nat
    decreases digits.len(),
{
    if digits.len() == 0 {
        0
    } else {
        digits_value(digits.drop_last()) * 10 + ((digits.last() as int - '0' as int) as nat)
    }
}

/// What `str::parse::<u64>` makes of a run of digits, with `u64::MAX` when the
/// value does not fit.
pub open spec fn run_value(digits: Seq<char>) -> u64 {
    if digits_value(digits) <= u64::MAX {
        digits_value(digits) as u64
    } else {
        u64::MAX
    }
}

/// The maximal runs of ASCII digits in `name`, left to right.
pub open spec fn digit_run_texts(name: Seq<char>) -> Seq<Seq<char>>
    decreases name.len(),
{
    if name.len() == 0 {
        Seq::empty()
    } else {
        let before = name.drop_last();
        let runs = digit_run_texts(before);
        if !is_digit(name.last()) {
            runs
        } else if before.len() > 0 && is_digit(before.last()) {
            runs.update(runs.len() - 1, runs.last().push(name.last()))
        } else {
            runs.push(seq![name.last()])
        }
    }
}

/// The numeric value of each digit run in `name`.
pub open spec fn digit_run_values(name: Seq<char>) -> Seq<u64> {
    digit_run_texts(name).map_values(|r: Seq<char>| run_value(r))
}

/// A name that ends in a digit has at least one digit run.
proof fn lemma_runs_last(name: Seq<char>)
    requires
        name.len() > 0,
        is_digit(name.last()),
    ensures
        digit_run_texts(name).len() > 0,
    decreases name.len(),
{
    let before = name.drop_last();
    if before.len() > 0 && is_digit(before.last()) {
        lemma_runs_last(before);
    }
}

/// The numeric value of each digit run in a file name, e.g.
/// `render.12.0034.exr` -> `[12, 34]`. A run too large for `u64` counts as
/// `u64::MAX`.
pub fn digit_runs_of_name(name: &str) -> (runs: Vec<u64>)
    ensures
        runs@ == digit_run_values(name@),
{
    let chars = chars_of(name);
    let mut runs: Vec<u64> = Vec::new();
    // Value of the run being read, saturated at u64::MAX.
    let mut current: u64 = 0;
    let mut in_run = false;
    let mut i: usize = 0;
    while i < chars.len()
        invariant
            i <= chars.len(),
            chars@ == name@,
            in_run == (i > 0 && is_digit(name@[i - 1])),
            in_run ==> digit_run_texts(name@.take(i as int)).len() > 0,
            in_run ==> runs@.push(current) == digit_run_values(name@.take(i as int)),
            in_run ==> current == run_value(digit_run_texts(name@.take(i as int)).last()),
            !in_run ==> runs@ == digit_run_values(name@.take(i as int)),
        decreases chars.len() - i,
    {
        let c = chars[i];
        let ghost prev = name@.take(i as int);
        let ghost next = name@.take(i + 1);
        proof {
            assert(next.drop_last() =~= prev);
            assert(next.last() == c);
        }
        if char_is_digit(c) {
            let d: u64 = (c as u32 - '0' as u32) as u64;
            let start = if in_run { current } else { 0 };
            let ghost run = if in_run { digit_run_texts(prev).last() } else { Seq::<char>::empty() };
            proof {
                assert(start == run_value(run));
                assert(run.push(c).drop_last() =~= run);
                assert(digits_value(run.push(c)) == digits_value(run) * 10 + d);
            }
            current = if start > (u64::MAX - d) / 10 { u64::MAX } else { start * 10 + d };
            in_run = true;
            proof {
                lemma_runs_last(next);
                let rn = digit_run_texts(next);
                if i > 0 && is_digit(name@[i - 1]) {
                    assert(prev.last() == name@[i - 1]);
                    assert(rn.last() == run.push(c));
                    assert(digit_run_values(next) =~= digit_run_values(prev).update(
                        digit_run_values(prev).len() - 1,
                        run_value(run.push(c)),
                    ));
                    assert(runs@.push(current) =~= digit_run_values(next));
                } else {
                    if i > 0 {
                        assert(prev.last() == name@[i - 1]);
                    }
                    assert(run.push(c) =~= seq![c]);
                    assert(rn.last() == run.push(c));
                    assert(digit_run_values(next) =~= digit_run_values(prev).push(run_value(seq![c])));
                }
            }
        } else {
            if in_run {
                runs.push(current);
                in_run = false;
            }
            proof {
                if i > 0 {
                    assert(prev.last() == name@[i - 1]);
                }
            }
        }
        i = i + 1;
    }
    if in_run {
        runs.push(current);
    }
    proof {
        assert(name@.take(chars.len() as int) =~= name@);
    }
    runs
}

/// The digit runs of the file name of `path` (none when it has no name).
pub fn digit_runs(path: &str) -> (runs: Vec<u64>)
    ensures
        runs@ == digit_run_values(text_or_empty(path_file_name(path@))),
{
    let name = file_name_of(path);
    match name {
        Some(n) => digit_runs_of_name(n.as_str()),
        None => {
            let r = digit_runs_of_name("");
            proof {
                reveal_strlit("");
                assert(""@ =~= Seq::<char>::empty());
            }
            r
        },
    }
}

/// What frames are ordered by: the numbers in the file name (compared as
/// numbers, run by run), then the file name, then the whole path. The path
/// only decides between two spellings of one file.
pub open spec fn frame_key(path: Seq<char>) -> (Seq<int>, Option<Seq<int>>, Seq<int>) {
    (
        u64_values(digit_run_values(text_or_empty(path_file_name(path)))),
        opt_code_points(path_file_name(path)),
        code_points(path),
    )
}

/// Strict lexicographic order on frame keys.
pub open spec fn frame_key_lt(
    a: (Seq<int>, Option<Seq<int>>, Seq<int>),
    b: (Seq<int>, Option<Seq<int>>, Seq<int>),
) -> bool {
    lex_lt(a.0, b.0) || (a.0 == b.0 && (opt_lex_lt(a.1, b.1) || (a.1 == b.1 && lex_lt(a.2, b.2))))
}

/// Frame `a` comes before frame `b` in a sequence.
pub open spec fn frame_precedes(a: Seq<char>, b: Seq<char>) -> bool {
    frame_key_lt(frame_key(a), frame_key(b))
}

proof fn lemma_frame_key_order(
    a: (Seq<int>, Option<Seq<int>>, Seq<int>),
    b: (Seq<int>, Option<Seq<int>>, Seq<int>),
    c: (Seq<int>, Option<Seq<int>>, Seq<int>),
)
    ensures
        !frame_key_lt(a, a),
        frame_key_lt(a, b) && frame_key_lt(b, c) ==> frame_key_lt(a, c),
        frame_key_lt(a, b) || a == b || frame_key_lt(b, a),
{
    lemma_lex_lt_irreflexive(a.0);
    lemma_lex_lt_irreflexive(a.2);
    lemma_lex_lt_trichotomy(a.0, b.0);
    lemma_lex_lt_trichotomy(a.2, b.2);
    lemma_opt_lex_lt_order(a.1, b.1, c.1);
    lemma_opt_lex_lt_order(b.1, c.1, a.1);
    if lex_lt(a.0, b.0) && lex_lt(b.0, c.0) {
        lemma_lex_lt_transitive(a.0, b.0, c.0);
    }
    if lex_lt(a.2, b.2) && lex_lt(b.2, c.2) {
        lemma_lex_lt_transitive(a.2, b.2, c.2);
    }
}

/// The order in which the frames of a sequence are stepped through.
pub struct FrameOrder;

impl Order<String> for FrameOrder {
    open spec fn precedes(&self, a: String, b: String) -> bool {
        frame_precedes(a@, b@)
    }

    proof fn lemma_precedes_transitive(&self, a: String, b: String, c: String) {
        lemma_frame_key_order(frame_key(a@), frame_key(b@), frame_key(c@));
    }

    proof fn lemma_precedes_irreflexive(&self, a: String) {
        lemma_frame_key_order(frame_key(a@), frame_key(a@), frame_key(a@));
    }

    proof fn lemma_not_precedes_transitive(&self, a: String, b: String, c: String) {
        lemma_frame_key_order(frame_key(a@), frame_key(b@), frame_key(c@));
        lemma_frame_key_order(frame_key(b@), frame_key(c@), frame_key(a@));
        lemma_frame_key_order(frame_key(c@), frame_key(a@), frame_key(b@));
        lemma_frame_key_order(frame_key(a@), frame_key(c@), frame_key(b@));
    }

    fn is_before(&self, a: &String, b: &String) -> (r: bool) {
        let runs_a = digit_runs(a.as_str());
        let runs_b = digit_runs(b.as_str());
        if u64s_lt(&runs_a, &runs_b) {
            return true;
        }
        if u64s_lt(&runs_b, &runs_a) {
            return false;
        }
        proof {
            lemma_lex_lt_trichotomy(frame_key(a@).0, frame_key(b@).0);
        }
        let name_a = file_name_of(a.as_str());
        let name_b = file_name_of(b.as_str());
        if opt_text_lt(&name_a, &name_b) {
            return true;
        }
        if opt_text_lt(&name_b, &name_a) {
            return false;
        }
        proof {
            lemma_opt_lex_lt_order(frame_key(a@).1, frame_key(b@).1, frame_key(b@).1);
        }
        chars_lt(&chars_of(a.as_str()), &chars_of(b.as_str()))
    }
}

/// The paths of the files (not folders) in `entries` whose sequence key is
/// `key`, in listing order.
pub open spec fn sequence_members(entries: Seq<RemoteEntry>, key: Seq<char>) -> Seq<String>
    decreases entries.len(),
{
    if entries.len() == 0 {
        Seq::empty()
    } else {
        let rest = sequence_members(entries.drop_last(), key);
        let e = entries.last();
        if !e.is_dir && key_of_path(e.path@) == key {
            rest.push(e.path)
        } else {
            rest
        }
    }
}

/// Every file of a directory listing that belongs to the sequence `key`, in
/// numeric order: by the numbers in the name, so `frame_9` precedes
/// `frame_10` even without zero padding.
pub fn sequence_from_listing(entries: &Vec<RemoteEntry>, key: &str) -> (frames: Vec<String>)
    ensures
        frames@.to_multiset() == sequence_members(entries@, key@).to_multiset(),
        in_order(FrameOrder, frames@),
{
    let key_string = key.to_string();
    let mut members: Vec<String> = Vec::new();
    let mut i: usize = 0;
    while i < entries.len()
        invariant
            i <= entries.len(),
            key_string@ == key@,
            members@ == sequence_members(entries@.take(i as int), key@),
        decreases entries.len() - i,
    {
        let e = &entries[i];
        proof {
            assert(entries@.take(i + 1).drop_last() =~= entries@.take(i as int));
        }
        if !e.is_dir && sequence_key(e.path.as_str()) == key_string {
            members.push(e.path.clone());
        }
        i = i + 1;
    }
    proof {
        assert(entries@.take(entries.len() as int) =~= entries@);
    }
    sort_vec(&FrameOrder, members)
}

/// The sequence of `path` as far as the remote listing of its folder is
/// known. Until that listing has arrived (it is requested on first use), the
/// sequence is just this one file; it is rebuilt on the next load.
pub fn discover_remote_sequence(remote: &mut RemoteFs, path: &str, key: &str) -> (frames: Vec<String>)
    ensures
        match path_parent(path@) {
            None => final(remote)@ == old(remote)@ && frames@.len() == 1 && frames@[0]@ == path@,
            Some(dir) => {
                &&& final(remote)@ == after_list(old(remote)@, dir)
                &&& match list_answer(old(remote)@, dir) {
                    ListView::Ready(entries) => {
                        &&& frames@.to_multiset() == sequence_members(entries, key@).to_multiset()
                        &&& in_order(FrameOrder, frames@)
                    },
                    _ => frames@.len() == 1 && frames@[0]@ == path@,
                }
            },
        },
{
    let dir = match parent_of(path) {
        Some(d) => d,
        None => {
            let mut only: Vec<String> = Vec::new();
            only.push(path.to_string());
            return only;
        },
    };
    match remote.list(dir.as_str()) {
        ListState::Ready(entries) => sequence_from_listing(&entries, key),
        _ => {
            let mut only: Vec<String> = Vec::new();
            only.push(path.to_string());
            only
        },
    }
}


/// Frames are ordered by their numbers as numbers: when the digit runs of one
/// file name come first (compared run by run, numerically), that frame comes
/// first, whatever the names look like as text (`frame_9` before
/// `frame_10`).
pub proof fn lemma_numbers_decide_order(a: Seq<char>, b: Seq<char>)
    requires
        lex_lt(
            u64_values(digit_run_values(text_or_empty(path_file_name(a)))),
            u64_values(digit_run_values(text_or_empty(path_file_name(b)))),
        ),
    ensures
        frame_precedes(a, b),
        !frame_precedes(b, a),
{
    lemma_frame_key_order(frame_key(a), frame_key(b), frame_key(a));
}


/// Collapsing works piece by piece, as long as the pieces do not split a
/// digit run.
pub proof fn lemma_collapse_concat(x: Seq<char>, y: Seq<char>)
    requires
        !(x.len() > 0 && y.len() > 0 && is_digit(x.last()) && is_digit(y[0])),
    ensures
        collapse_digits(x + y) == collapse_digits(x) + collapse_digits(y),
    decreases y.len(),
{
    if y.len() == 0 {
        assert(x + y =~= x);
        assert(collapse_digits(x) + collapse_digits(y) =~= collapse_digits(x));
    } else {
        let yb = y.drop_last();
        if yb.len() > 0 {
            assert(yb[0] == y[0]);
        }
        lemma_collapse_concat(x, yb);
        let xy = x + y;
        assert(xy.drop_last() =~= x + yb);
        assert(xy.last() == y.last());
        if yb.len() > 0 {
            assert((x + yb).last() == yb.last());
        }
        let cx = collapse_digits(x);
        let cyb = collapse_digits(yb);
        if !is_digit(y.last()) {
            assert(cx + cyb.push(y.last()) =~= (cx + cyb).push(y.last()));
        } else if yb.len() > 0 && is_digit(yb.last()) {
        } else {
            assert(cx + cyb.push('#') =~= (cx + cyb).push('#'));
        }
    }
}

/// Collapsing keeps every character that is not a digit: appending one
/// to a name appends it, unchanged, to the collapsed name.
pub proof fn lemma_collapse_keeps_non_digit(name: Seq<char>, c: char)
    requires
        !is_digit(c),
    ensures
        collapse_digits(name.push(c)) == collapse_digits(name).push(c),
{
    assert(name.push(c).drop_last() =~= name);
    assert(name.push(c).last() == c);
}

/// A name without digits is its own collapsed form (`shot-a.exr` stays
/// `shot-a.exr`): collapsing only replaces digit runs.
pub proof fn lemma_collapse_without_digits(name: Seq<char>)
    requires
        forall|i: int| 0 <= i < name.len() ==> !is_digit(#[trigger] name[i]),
    ensures
        collapse_digits(name) == name,
    decreases name.len(),
{
    if name.len() > 0 {
        let b = name.drop_last();
        assert forall|i: int| 0 <= i < b.len() implies !is_digit(#[trigger] b[i]) by {
            assert(b[i] == name[i]);
        }
        lemma_collapse_without_digits(b);
        assert(!is_digit(name[name.len() - 1]));
        lemma_collapse_keeps_non_digit(b, name.last());
        assert(b.push(name.last()) =~= name);
    } else {
        assert(collapse_digits(name) =~= name);
    }
}

/// A non-empty run of digits collapses to a single `#`.
pub proof fn lemma_collapse_digit_run(d: Seq<char>)
    requires
        d.len() > 0,
        forall|i: int| 0 <= i < d.len() ==> is_digit(#[trigger] d[i]),
    ensures
        collapse_digits(d) == seq!['#'],
    decreases d.len(),
{
    let b = d.drop_last();
    assert(is_digit(d[d.len() - 1]));
    if b.len() > 0 {
        assert forall|i: int| 0 <= i < b.len() implies is_digit(#[trigger] b[i]) by {
            assert(b[i] == d[i]);
        }
        lemma_collapse_digit_run(b);
        assert(is_digit(b[b.len() - 1]));
    } else {
        assert(collapse_digits(b) =~= Seq::<char>::empty());
        assert(Seq::<char>::empty().push('#') =~= seq!['#']);
    }
}

/// Files whose names differ only by a number are one sequence: renumbering a
/// whole digit run of a file name (`frame_0007.exr` to `frame_12.exr`) keeps
/// its sequence key.
pub proof fn lemma_renumbering_keeps_key(
    parent: Option<Seq<char>>,
    prefix: Seq<char>,
    run_a: Seq<char>,
    run_b: Seq<char>,
    suffix: Seq<char>,
)
    requires
        run_a.len() > 0,
        run_b.len() > 0,
        forall|i: int| 0 <= i < run_a.len() ==> is_digit(#[trigger] run_a[i]),
        forall|i: int| 0 <= i < run_b.len() ==> is_digit(#[trigger] run_b[i]),
        prefix.len() > 0 ==> !is_digit(prefix.last()),
        suffix.len() > 0 ==> !is_digit(suffix[0]),
    ensures
        key_of_parts(parent, Some(prefix + run_a + suffix)) == key_of_parts(
            parent,
            Some(prefix + run_b + suffix),
        ),
{
    lemma_collapse_digit_run(run_a);
    lemma_collapse_digit_run(run_b);
    lemma_collapse_concat(prefix, run_a);
    lemma_collapse_concat(prefix, run_b);
    assert((prefix + run_a).last() == run_a.last());
    assert((prefix + run_b).last() == run_b.last());
    assert(is_digit(run_a[run_a.len() - 1]));
    assert(is_digit(run_b[run_b.len() - 1]));
    lemma_collapse_concat(prefix + run_a, suffix);
    lemma_collapse_concat(prefix + run_b, suffix);
}

} // verus!
