//! The directory tree that may precede a digest, drawn with box characters.
//!
//! The tree is produced as the list of pieces that a printer writes one
//! after another, each with the mark that says whether a line ends after it.

use vstd::prelude::*;
use vstd::string::*;
use crate::file_system::File;
use crate::paths::{file_name, file_name_of};

verus! {

/// One piece of output: a text, and whether a line break follows it.
#[derive(Debug, Clone, Copy)]
pub struct CallbackArgs<T> {
    /// The output to print.
    pub output: T,
    /// Whether to add a linebreak after the output.
    pub linebreak: bool,
}

/// Why a tree could not be drawn.
#[derive(Debug, Clone)]
pub enum FileTreeError {
    /// The files could not be listed; the text says why.
    ErrorGettingFiles(String),
    /// The path of an entry has no last component to show.
    NoFileName(String),
}

impl FileTreeError {
    /// The message that describes the error to a user.
    pub fn message(&self) -> (text: String)
        ensures
            text@ == match self {
                FileTreeError::ErrorGettingFiles(reason) => "Error getting files: "@ + reason@,
                FileTreeError::NoFileName(path) => "No file name in path: "@ + path@,
            },
    {
        match self {
            FileTreeError::ErrorGettingFiles(reason) => {
                let mut text = "Error getting files: ".to_owned();
                text.append(reason.as_str());
                text
            },
            FileTreeError::NoFileName(path) => {
                let mut text = "No file name in path: ".to_owned();
                text.append(path.as_str());
                text
            },
        }
    }
}

/// The model of a piece of output.
pub struct Piece {
    pub output: Seq<char>,
    pub linebreak: bool,
}

/// The models of a list of pieces whose texts are owned.
pub open spec fn owned_pieces(args: Seq<CallbackArgs<String>>) -> Seq<Piece> {
    args.map_values(|a: CallbackArgs<String>| Piece { output: a.output@, linebreak: a.linebreak })
}

/// The models of a list of pieces whose texts are constants.
pub open spec fn constant_pieces(args: Seq<CallbackArgs<&'static str>>) -> Seq<Piece> {
    args.map_values(
        |a: CallbackArgs<&'static str>| Piece { output: a.output@, linebreak: a.linebreak },
    )
}

/// The padding below an ancestor after which siblings still come.
pub open spec fn bar() -> Seq<char> {
    "│   "@
}

/// The padding below an ancestor that was the last of its siblings.
pub open spec fn blank() -> Seq<char> {
    "    "@
}

/// The connector before an entry after which siblings still come.
pub open spec fn tee() -> Seq<char> {
    "├── "@
}

/// The connector before the last of its siblings.
pub open spec fn elbow() -> Seq<char> {
    "└── "@
}

/// A piece of indentation.
pub open spec fn padding(text: Seq<char>) -> Piece {
    Piece { output: text, linebreak: false }
}

/// The padding below the ancestors of an entry when one answer holds for
/// all of them.
pub open spec fn uniform_padding(is_last_sibling: bool) -> Piece {
    padding(
        if is_last_sibling {
            blank()
        } else {
            bar()
        },
    )
}

/// The connector before an entry.
pub open spec fn connector(is_last_entry: bool) -> Piece {
    padding(
        if is_last_entry {
            elbow()
        } else {
            tee()
        },
    )
}

/// The indentation of an entry at `depth` when one answer holds for all its
/// ancestors: below each ancestor a blank where the entry hangs under last
/// siblings, a bar otherwise; then, for an entry below the root, the
/// connector, an elbow for the last entry and a tee otherwise.
pub open spec fn uniform_indent(depth: int, is_last_sibling: bool, is_last_entry: bool) -> Seq<
    Piece,
> {
    let levels = Seq::new(
        if depth > 1 {
            (depth - 1) as nat
        } else {
            0
        },
        |k: int| uniform_padding(is_last_sibling),
    );
    if depth > 0 {
        levels.push(connector(is_last_entry))
    } else {
        levels
    }
}

/// The pieces that indent an entry at `depth`, with one answer for all its
/// ancestors.
pub fn print_indent(depth: isize, is_last_sibling: bool, is_last_entry: bool) -> (pieces: Vec<
    CallbackArgs<&'static str>,
>)
    ensures
        constant_pieces(pieces@) == uniform_indent(depth as int, is_last_sibling, is_last_entry),
{
    let mut pieces: Vec<CallbackArgs<&'static str>> = Vec::new();
    let mut level: isize = 1;
    while level < depth
        invariant
            1 <= level,
            level == 1 || level <= depth,
            pieces.len() == level - 1,
            forall|k: int|
                0 <= k < pieces.len() ==> constant_pieces(pieces@)[k] == uniform_padding(
                    is_last_sibling,
                ),
        decreases depth - level,
    {
        let ghost before = constant_pieces(pieces@);
        if is_last_sibling {
            pieces.push(CallbackArgs { output: "    ", linebreak: false });
        } else {
            pieces.push(CallbackArgs { output: "│   ", linebreak: false });
        }
        proof {
            assert forall|k: int| 0 <= k < pieces.len() implies constant_pieces(pieces@)[k]
                == uniform_padding(is_last_sibling) by {
                if k < pieces.len() - 1 {
                    assert(constant_pieces(pieces@)[k] == before[k]);
                }
            }
        }
        level += 1;
    }
    let ghost levels = constant_pieces(pieces@);
    if depth > 0 {
        if is_last_entry {
            pieces.push(CallbackArgs { output: "└── ", linebreak: false });
        } else {
            pieces.push(CallbackArgs { output: "├── ", linebreak: false });
        }
        proof {
            assert forall|k: int| 0 <= k < levels.len() implies constant_pieces(pieces@)[k]
                == levels[k] by {}
        }
    }
    proof {
        let wanted = uniform_indent(depth as int, is_last_sibling, is_last_entry);
        let got = constant_pieces(pieces@);
        assert forall|k: int| 0 <= k < got.len() implies got[k] == wanted[k] by {
            if k < levels.len() {
                assert(levels[k] == uniform_padding(is_last_sibling));
            }
        }
    }
    pieces
}

/// The depths of the entries of a listing.
pub open spec fn depths(files: Seq<File>) -> Seq<int> {
    files.map_values(|f: File| f.depth as int)
}

/// The names under which the entries of a listing are shown: for each the
/// name of the last component of its path, empty where it has none.
pub open spec fn names(files: Seq<File>) -> Seq<Seq<char>> {
    files.map_values(
        |f: File|
            match file_name_of(f.path@) {
                Some(name) => name,
                None => Seq::empty(),
            },
    )
}

/// Whether, in a listing in document order, an entry at `level` follows the
/// entry at `index` before the listing leaves that level: whether the entry,
/// or its ancestor at that level, has a sibling that is still to come.
pub open spec fn sibling_follows(depths: Seq<int>, index: int, level: int) -> bool {
    exists|j: int|
        index < j < depths.len() && #[trigger] depths[j] == level && forall|m: int|
            index < m < j ==> #[trigger] depths[m] > level
}

/// The indentation of the entry at `index`: below each of its ancestors a
/// bar where that ancestor has a sibling still to come and a blank where it
/// has none; then, for an entry below the root, a tee where the entry itself
/// has a sibling still to come and an elbow where it is the last.
pub open spec fn entry_indent(depths: Seq<int>, index: int) -> Seq<Piece> {
    let depth = depths[index];
    let levels = Seq::new(
        if depth > 1 {
            (depth - 1) as nat
        } else {
            0
        },
        |k: int| uniform_padding(!sibling_follows(depths, index, k + 1)),
    );
    if depth > 0 {
        levels.push(connector(!sibling_follows(depths, index, depth)))
    } else {
        levels
    }
}

/// The line of a name.
pub open spec fn line(text: Seq<char>) -> Piece {
    Piece { output: text, linebreak: true }
}

/// The pieces that show the entry at `index`: a dot for the first entry,
/// the root; for every other its indentation and its name.
pub open spec fn entry_pieces(depths: Seq<int>, names: Seq<Seq<char>>, index: int) -> Seq<Piece> {
    if index == 0 {
        seq![line("."@)]
    } else {
        entry_indent(depths, index).push(line(names[index]))
    }
}

/// The pieces that show the first `upto` entries.
pub open spec fn tree_pieces(depths: Seq<int>, names: Seq<Seq<char>>, upto: int) -> Seq<Piece>
    decreases upto,
{
    if upto <= 0 {
        Seq::empty()
    } else {
        tree_pieces(depths, names, upto - 1) + entry_pieces(depths, names, upto - 1)
    }
}

/// The position of the first entry after the root whose path has no last
/// component, or the number of entries.
pub open spec fn first_unnamed(files: Seq<File>, from: int) -> int
    decreases files.len() - from,
{
    if from < 1 || from >= files.len() {
        files.len() as int
    } else if file_name_of(files[from].path@) is None {
        from
    } else {
        first_unnamed(files, from + 1)
    }
}

/// In the drawing of an entry below the root, the connector is a tee
/// exactly when a sibling of the entry is still to come and an elbow when the
/// entry is the last of its siblings; and below an ancestor stands a bar
/// exactly when a sibling of that ancestor is still to come, a blank
/// otherwise.
pub proof fn lemma_connectors_and_bars(depths: Seq<int>, index: int)
    requires
        0 <= index < depths.len(),
        depths[index] > 0,
    ensures
        entry_indent(depths, index).len() == depths[index],
        entry_indent(depths, index).last() == padding(
            if sibling_follows(depths, index, depths[index]) {
                tee()
            } else {
                elbow()
            },
        ),
        forall|level: int|
            1 <= level < depths[index] ==> #[trigger] entry_indent(depths, index)[level - 1]
                == padding(
                if sibling_follows(depths, index, level) {
                    bar()
                } else {
                    blank()
                },
            ),
{
}

/// Where one answer holds for all the ancestors of an entry, its
/// indentation is the uniform one.
pub proof fn lemma_uniform_entry_indent(
    depths: Seq<int>,
    index: int,
    is_last_sibling: bool,
    is_last_entry: bool,
)
    requires
        0 <= index < depths.len(),
        forall|level: int|
            1 <= level < depths[index] ==> #[trigger] sibling_follows(depths, index, level)
                == !is_last_sibling,
        depths[index] > 0 ==> sibling_follows(depths, index, depths[index]) == !is_last_entry,
    ensures
        entry_indent(depths, index) == uniform_indent(
            depths[index],
            is_last_sibling,
            is_last_entry,
        ),
{
    let depth = depths[index];
    let count = if depth > 1 {
        (depth - 1) as nat
    } else {
        0
    };
    let mine = Seq::new(count, |k: int| uniform_padding(!sibling_follows(depths, index, k + 1)));
    let uniform = Seq::new(count, |k: int| uniform_padding(is_last_sibling));
    assert forall|k: int| 0 <= k < count implies mine[k] == uniform[k] by {
        assert(sibling_follows(depths, index, k + 1) == !is_last_sibling);
    }
}

/// Tests whether an entry at `level` follows the entry at `index` before
/// the listing leaves that level.
pub fn has_later_sibling(files: &Vec<File>, index: usize, level: isize) -> (r: bool)
    requires
        index < files.len(),
    ensures
        r == sibling_follows(depths(files@), index as int, level as int),
{
    let ghost d = depths(files@);
    let mut j: usize = index + 1;
    while j < files.len()
        invariant
            d == depths(files@),
            index < j <= files.len(),
            forall|m: int| index < m < j ==> #[trigger] d[m] > level,
        decreases files.len() - j,
    {
        assert(d[j as int] == files[j as int].depth);
        if files[j].depth == level {
            return true;
        }
        if files[j].depth < level {
            proof {
                assert forall|w: int| index < w < d.len() && #[trigger] d[w] == level implies !(
                forall|m: int| index < m < w ==> #[trigger] d[m] > level) by {
                    if w > j {
                        assert(!(d[j as int] > level));
                    }
                }
            }
            return false;
        }
        j += 1;
    }
    false
}

/// The pieces that indent the entry at `index`.
fn indent_entry(files: &Vec<File>, index: usize, pieces: &mut Vec<CallbackArgs<String>>)
    requires
        index < files.len(),
    ensures
        owned_pieces(final(pieces)@) == owned_pieces(old(pieces)@) + entry_indent(
            depths(files@),
            index as int,
        ),
{
    let ghost d = depths(files@);
    let ghost before = owned_pieces(pieces@);
    let depth = files[index].depth;
    let mut level: isize = 1;
    while level < depth
        invariant
            d == depths(files@),
            index < files.len(),
            d[index as int] == depth,
            1 <= level,
            level == 1 || level <= depth,
            owned_pieces(pieces@).len() == before.len() + level - 1,
            forall|k: int| 0 <= k < before.len() ==> owned_pieces(pieces@)[k] == before[k],
            forall|k: int|
                before.len() <= k < owned_pieces(pieces@).len() ==> #[trigger] owned_pieces(
                    pieces@,
                )[k] == uniform_padding(!sibling_follows(d, index as int, k - before.len() + 1)),
        decreases depth - level,
    {
        let ghost so_far = owned_pieces(pieces@);
        if has_later_sibling(files, index, level) {
            pieces.push(CallbackArgs { output: "│   ".to_owned(), linebreak: false });
        } else {
            pieces.push(CallbackArgs { output: "    ".to_owned(), linebreak: false });
        }
        proof {
            let now = owned_pieces(pieces@);
            assert forall|k: int| 0 <= k < so_far.len() implies now[k] == so_far[k] by {}
            assert forall|k: int| before.len() <= k < now.len() implies #[trigger] now[k]
                == uniform_padding(!sibling_follows(d, index as int, k - before.len() + 1)) by {
                if k < so_far.len() {
                    assert(now[k] == so_far[k]);
                }
            }
        }
        level += 1;
    }
    let ghost so_far = owned_pieces(pieces@);
    if depth > 0 {
        if has_later_sibling(files, index, depth) {
            pieces.push(CallbackArgs { output: "├── ".to_owned(), linebreak: false });
        } else {
            pieces.push(CallbackArgs { output: "└── ".to_owned(), linebreak: false });
        }
        proof {
            assert forall|k: int| 0 <= k < so_far.len() implies owned_pieces(pieces@)[k]
                == so_far[k] by {}
        }
    }
    proof {
        let wanted = before + entry_indent(d, index as int);
        let got = owned_pieces(pieces@);
        assert forall|k: int| 0 <= k < got.len() implies got[k] == wanted[k] by {
            if before.len() <= k < so_far.len() {
                assert(so_far[k] == uniform_padding(
                    !sibling_follows(d, index as int, k - before.len() + 1),
                ));
            }
        }
    }
}

/// The pieces that draw a listing as a tree. The first entry is the root
/// and is shown as a dot; every other entry is shown on a line of its own
/// under the name of the last component of its path. An entry whose path has
/// no last component is reported, and nothing is drawn.
pub fn print_file_tree(files: &Vec<File>) -> (r: Result<Vec<CallbackArgs<String>>, FileTreeError>)
    ensures
        r is Ok <==> first_unnamed(files@, 1) == files.len(),
        r is Ok ==> owned_pieces(r->Ok_0@) == tree_pieces(
            depths(files@),
            names(files@),
            files.len() as int,
        ),
        r is Err ==> (r->Err_0 matches FileTreeError::NoFileName(path) && path@
            == files[first_unnamed(files@, 1)].path@),
{
    let ghost d = depths(files@);
    let ghost n = names(files@);
    let mut pieces: Vec<CallbackArgs<String>> = Vec::new();
    let mut i: usize = 0;
    while i < files.len()
        invariant
            d == depths(files@),
            n == names(files@),
            0 <= i <= files.len(),
            owned_pieces(pieces@) == tree_pieces(d, n, i as int),
            i >= 1 ==> first_unnamed(files@, 1) == first_unnamed(files@, i as int),
        decreases files.len() - i,
    {
        if i == 0 {
            pieces.push(CallbackArgs { output: ".".to_owned(), linebreak: true });
        } else {
            let name = match file_name(files[i].path.as_str()) {
                Some(name) => name,
                None => {
                    return Err(FileTreeError::NoFileName(files[i].path.clone()));
                },
            };
            indent_entry(files, i, &mut pieces);
            let ghost indented = owned_pieces(pieces@);
            pieces.push(CallbackArgs { output: name, linebreak: true });
            proof {
                assert(owned_pieces(pieces@) =~= indented.push(line(name@)));
            }
        }
        i += 1;
    }
    Ok(pieces)
}

/// What a list of pieces looks like when it is printed.
pub open spec fn rendered(pieces: Seq<Piece>) -> Seq<char>
    decreases pieces.len(),
{
    if pieces.len() == 0 {
        Seq::empty()
    } else {
        rendered(pieces.drop_last()) + pieces.last().output + if pieces.last().linebreak {
            seq!['\n']
        } else {
            Seq::empty()
        }
    }
}

/// Prints a list of pieces into a text.
pub fn render_pieces(pieces: &Vec<CallbackArgs<String>>) -> (text: String)
    ensures
        text@ == rendered(owned_pieces(pieces@)),
{
    proof {
        reveal_strlit("\n");
    }
    let ghost all = owned_pieces(pieces@);
    let mut text = String::new();
    let mut i: usize = 0;
    while i < pieces.len()
        invariant
            all == owned_pieces(pieces@),
            "\n"@ == seq!['\n'],
            0 <= i <= pieces.len(),
            text@ == rendered(all.take(i as int)),
        decreases pieces.len() - i,
    {
        proof {
            assert(all.take(i + 1).drop_last() =~= all.take(i as int));
        }
        text.append(pieces[i].output.as_str());
        if pieces[i].linebreak {
            text.append("\n");
        }
        i += 1;
    }
    proof {
        assert(all.take(pieces.len() as int) =~= all);
    }
    text
}

} // verus!
