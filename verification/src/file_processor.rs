//! The listing of one file: its path, and in a fenced block either its
//! content or the fragments extracted from it.

use vstd::prelude::*;
use vstd::string::*;
use crate::engine::extraction_result;
use crate::file_system::{any_matches, File, FileKind, GlobPatternMatcher};
use crate::grammar::syntax_tree;
use crate::parse::{digest, is_digest, parse};
use crate::paths::{extension, extension_of};
use crate::selector::{has_models, ConfigView, ParseConfig, ParseError, ParseErrorView};
use crate::state::{fragment_texts, KeyContent};
use crate::text::{debug_text, joined, quoted, str_eq};

verus! {

/// Why a file was left out of the digest.
#[derive(Debug, Clone, Copy, PartialEq, Eq, PartialOrd, Ord, Structural)]
pub enum FileSkipReason {
    /// The path has no extension to tell the language by.
    FileExtension,
}

/// Why a file has no listing.
#[derive(Debug)]
pub enum FileProcessorError {
    /// The file could not be read; the text says why.
    ErrorReadingFile(String),
    /// The file was left out.
    FileSkipped(FileSkipReason),
    /// The extraction failed.
    ErrorParsingFile(ParseError),
    /// No language is known for the extension.
    UnsupportedFileKind(String),
}

/// The model of the reason why a file has no listing.
pub enum FileProcessorErrorView {
    ErrorReadingFile(Seq<char>),
    FileSkipped(FileSkipReason),
    ErrorParsingFile(ParseErrorView),
    UnsupportedFileKind(Seq<char>),
}

impl View for FileProcessorError {
    type V = FileProcessorErrorView;

    open spec fn view(&self) -> FileProcessorErrorView {
        match self {
            FileProcessorError::ErrorReadingFile(reason) => FileProcessorErrorView::ErrorReadingFile(
                reason@,
            ),
            FileProcessorError::FileSkipped(reason) => FileProcessorErrorView::FileSkipped(*reason),
            FileProcessorError::ErrorParsingFile(e) => FileProcessorErrorView::ErrorParsingFile(
                e@,
            ),
            FileProcessorError::UnsupportedFileKind(ext) => FileProcessorErrorView::UnsupportedFileKind(
                ext@,
            ),
        }
    }
}

/// The message that describes to a user why a file has no listing.
pub open spec fn error_text(error: FileProcessorErrorView) -> Seq<char> {
    match error {
        FileProcessorErrorView::ErrorReadingFile(reason) => "Error reading file: "@ + reason,
        FileProcessorErrorView::FileSkipped(_) => "File skipped: FileExtension"@,
        FileProcessorErrorView::ErrorParsingFile(e) => "Error parsing file: "@
            + crate::selector::parse_error_text(e),
        FileProcessorErrorView::UnsupportedFileKind(ext) => "Unsupported file kind: "@
            + debug_text(ext),
    }
}

impl FileProcessorError {
    /// The message that describes the error to a user.
    pub fn message(&self) -> (text: String)
        ensures
            text@ == error_text(self@),
    {
        match self {
            FileProcessorError::ErrorReadingFile(reason) => {
                let mut text = "Error reading file: ".to_owned();
                text.append(reason.as_str());
                text
            },
            FileProcessorError::FileSkipped(_) => "File skipped: FileExtension".to_owned(),
            FileProcessorError::ErrorParsingFile(e) => {
                let mut text = "Error parsing file: ".to_owned();
                text.append(e.message().as_str());
                text
            },
            FileProcessorError::UnsupportedFileKind(ext) => {
                let mut text = "Unsupported file kind: ".to_owned();
                text.append(quoted(ext.as_str()).as_str());
                text
            },
        }
    }

    /// Whether the error ends the run: it does where the grammar of the
    /// language gave no tree over the source, for then no file of that
    /// language can be digested.
    pub fn is_fatal(&self) -> (r: bool)
        ensures
            r == (self matches FileProcessorError::ErrorParsingFile(e) && e
                is TreeSitterParseError),
    {
        match self {
            FileProcessorError::ErrorParsingFile(ParseError::TreeSitterParseError) => true,
            _ => false,
        }
    }

    /// Whether the error only says that the file is left out of the digest:
    /// such a file is passed over in silence, any other error is shown.
    pub fn is_omission(&self) -> (r: bool)
        ensures
            r == (self is FileSkipped || self is UnsupportedFileKind),
    {
        match self {
            FileProcessorError::FileSkipped(_) => true,
            FileProcessorError::UnsupportedFileKind(_) => true,
            _ => false,
        }
    }
}

/// The model of a listing or of the reason why there is none.
pub open spec fn listing_result(r: Result<String, FileProcessorError>) -> Result<
    Seq<char>,
    FileProcessorErrorView,
> {
    match r {
        Ok(text) => Ok(text@),
        Err(e) => Err(e@),
    }
}

/// The line that names the file: its path between two backticks.
pub open spec fn path_line(path: Seq<char>) -> Seq<char> {
    "`"@ + path + "`\n"@
}

/// The line that opens a fenced block with the tag of a language.
pub open spec fn opening_fence(tag: Seq<char>) -> Seq<char> {
    "```"@ + tag + "\n"@
}

/// The line that closes a fenced block.
pub open spec fn closing_fence() -> Seq<char> {
    "```\n"@
}

/// The fragments as they stand in a block: each ends its line, and a blank
/// line parts each from the next.
pub open spec fn fragment_lines(fragments: Seq<Seq<char>>) -> Seq<char> {
    joined(fragments.map_values(|f: Seq<char>| f + "\n"@), "\n"@)
}

/// The listing of a file that is shown in full: the path, and the content
/// in a block without a tag.
pub open spec fn verbatim_listing(path: Seq<char>, source: Seq<char>) -> Seq<char> {
    path_line(path) + opening_fence(Seq::empty()) + source + "\n"@ + closing_fence()
}

/// The listing of a file that is digested: the path, and the fragments in a
/// block with the tag of the language.
pub open spec fn digest_listing(path: Seq<char>, tag: Seq<char>, fragments: Seq<Seq<char>>) -> Seq<
    char,
> {
    path_line(path) + opening_fence(tag) + fragment_lines(fragments) + closing_fence()
}

/// Writes the listing of a file that is shown in full.
pub fn render_verbatim(file_path: &str, source_code: &str) -> (text: String)
    ensures
        text@ == verbatim_listing(file_path@, source_code@),
{
    let mut output = String::new();
    output.append("`");
    output.append(file_path);
    output.append("`\n");
    output.append("```");
    output.append("\n");
    output.append(source_code);
    output.append("\n");
    output.append("```\n");
    output
}

/// Writes the listing of a file from the fragments extracted from it.
pub fn render_digest(file_path: &str, tag: &str, fragments: &Vec<KeyContent>) -> (text: String)
    ensures
        text@ == digest_listing(file_path@, tag@, fragment_texts(fragments@)),
{
    let ghost all = fragment_texts(fragments@).map_values(|f: Seq<char>| f + "\n"@);
    let mut output = String::new();
    output.append("`");
    output.append(file_path);
    output.append("`\n");
    output.append("```");
    output.append(tag);
    output.append("\n");
    let ghost head = output@;
    let mut i: usize = 0;
    while i < fragments.len()
        invariant
            all == fragment_texts(fragments@).map_values(|f: Seq<char>| f + "\n"@),
            0 <= i <= fragments.len(),
            output@ == head + joined(all.take(i as int), "\n"@),
        decreases fragments.len() - i,
    {
        proof {
            assert(all.take(i + 1).drop_last() =~= all.take(i as int));
        }
        if i > 0 {
            output.append("\n");
        }
        output.append(fragments[i].content.as_str());
        output.append("\n");
        i += 1;
    }
    proof {
        assert(all.take(fragments.len() as int) =~= all);
    }
    output.append("```\n");
    output
}

/// The listing of a file whose language is known: the listing of its
/// fragments, or the error of the extraction.
pub open spec fn digested(
    path: Seq<char>,
    tag: Seq<char>,
    fragments: Result<Seq<Seq<char>>, ParseErrorView>,
) -> Result<Seq<char>, FileProcessorErrorView> {
    match fragments {
        Ok(fragments) => Ok(digest_listing(path, tag, fragments)),
        Err(e) => Err(FileProcessorErrorView::ErrorParsingFile(e)),
    }
}

/// Writes the listing of a file from what its extraction returned.
pub fn render_parsed(file_path: &str, tag: &str, parsed: Result<Vec<KeyContent>, ParseError>) -> (r:
    Result<String, FileProcessorError>)
    ensures
        listing_result(r) == digested(file_path@, tag@, extraction_result(parsed)),
{
    match parsed {
        Ok(fragments) => Ok(render_digest(file_path, tag, &fragments)),
        Err(e) => Err(FileProcessorError::ErrorParsingFile(e)),
    }
}

/// The fragments that a configuration extracts from a source.
pub open spec fn fragments_of(source: Seq<char>, config: ConfigView) -> Result<
    Seq<Seq<char>>,
    ParseErrorView,
> {
    digest(syntax_tree(config.language, source), source, config)
}

/// The listing of a file. A file that one of the globs matches is shown in
/// full. Any other file is told by its extension: `go` is digested with the
/// first configuration under the tag `go`, `rs` with the second under the tag
/// `rust`; a file without an extension is skipped, and any other extension
/// is unsupported.
pub open spec fn file_listing(
    path: Seq<char>,
    source: Seq<char>,
    go_config: ConfigView,
    rust_config: ConfigView,
    globs: Seq<Seq<char>>,
) -> Result<Seq<char>, FileProcessorErrorView> {
    if any_matches(globs, path, globs.len() as int) {
        Ok(verbatim_listing(path, source))
    } else {
        match extension_of(path) {
            None => Err(FileProcessorErrorView::FileSkipped(FileSkipReason::FileExtension)),
            Some(ext) => if ext == "go"@ {
                digested(path, "go"@, fragments_of(source, go_config))
            } else if ext == "rs"@ {
                digested(path, "rust"@, fragments_of(source, rust_config))
            } else {
                Err(FileProcessorErrorView::UnsupportedFileKind(ext))
            },
        }
    }
}

/// Whether `result` is the listing of a source in the language of `config`
/// under the tag `tag`: the listing of the fragments of a digest of the
/// source, or the error of that digest as the error of parsing.
pub open spec fn is_digested(
    path: Seq<char>,
    tag: Seq<char>,
    source: Seq<char>,
    config: ConfigView,
    result: Result<Seq<char>, FileProcessorErrorView>,
) -> bool {
    exists|fragments: Result<Seq<Seq<char>>, ParseErrorView>|
        #[trigger] is_digest(syntax_tree(config.language, source), source, config, fragments)
            && result == digested(path, tag, fragments)
}

/// Whether `result` is a listing of a file, whatever rules the
/// configurations hold. A file that one of the globs matches is shown in
/// full, and no configuration is looked at. Any other file is told by its
/// extension: without one it is skipped, with `go` it is digested with the
/// first configuration under the tag `go`, with `rs` with the second under
/// the tag `rust`, and any other extension is unsupported.
pub open spec fn is_file_listing(
    path: Seq<char>,
    source: Seq<char>,
    go_config: ConfigView,
    rust_config: ConfigView,
    globs: Seq<Seq<char>>,
    result: Result<Seq<char>, FileProcessorErrorView>,
) -> bool {
    if any_matches(globs, path, globs.len() as int) {
        result == Ok::<Seq<char>, FileProcessorErrorView>(verbatim_listing(path, source))
    } else {
        match extension_of(path) {
            None => result == Err::<Seq<char>, FileProcessorErrorView>(
                FileProcessorErrorView::FileSkipped(FileSkipReason::FileExtension),
            ),
            Some(ext) => if ext == "go"@ {
                is_digested(path, "go"@, source, go_config, result)
            } else if ext == "rs"@ {
                is_digested(path, "rust"@, source, rust_config, result)
            } else {
                result == Err::<Seq<char>, FileProcessorErrorView>(
                    FileProcessorErrorView::UnsupportedFileKind(ext),
                )
            },
        }
    }
}

/// What the listing of a digested source can be: the listing of some
/// fragments, or an error of parsing, and nothing else.
pub proof fn lemma_digested_is_listing_or_parse_error(
    path: Seq<char>,
    tag: Seq<char>,
    source: Seq<char>,
    config: ConfigView,
    result: Result<Seq<char>, FileProcessorErrorView>,
)
    requires
        is_digested(path, tag, source, config, result),
    ensures
        result is Err ==> result->Err_0 is ErrorParsingFile,
        result is Ok ==> exists|fragments: Seq<Seq<char>>| #[trigger]
            digest_listing(path, tag, fragments) == result->Ok_0,
{
    let fragments = choose|fragments: Result<Seq<Seq<char>>, ParseErrorView>|
        #[trigger] is_digest(syntax_tree(config.language, source), source, config, fragments)
            && result == digested(path, tag, fragments);
    if result is Ok {
        assert(digest_listing(path, tag, fragments->Ok_0) == result->Ok_0);
    }
}

/// Makes the listing of the file at `file_path` whose content is
/// `source_code`. Where the rules of both configurations all have a model,
/// the listing is the one that the models give.
pub fn process_file(
    file_path: &str,
    source_code: &str,
    go_config: &ParseConfig,
    rust_config: &ParseConfig,
    glob_matcher: &GlobPatternMatcher,
) -> (r: Result<String, FileProcessorError>)
    ensures
        is_file_listing(
            file_path@,
            source_code@,
            go_config@,
            rust_config@,
            glob_matcher@,
            listing_result(r),
        ),
        has_models(go_config@.registry) && has_models(rust_config@.registry) ==> listing_result(r)
            == file_listing(file_path@, source_code@, go_config@, rust_config@, glob_matcher@),
{
    if glob_matcher.matches(file_path) {
        return Ok(render_verbatim(file_path, source_code));
    }
    let ext = match extension(file_path) {
        Some(ext) => ext,
        None => {
            return Err(FileProcessorError::FileSkipped(FileSkipReason::FileExtension));
        },
    };
    if str_eq(ext.as_str(), "go") {
        render_parsed(file_path, "go", parse(source_code, go_config))
    } else if str_eq(ext.as_str(), "rs") {
        render_parsed(file_path, "rust", parse(source_code, rust_config))
    } else {
        Err(FileProcessorError::UnsupportedFileKind(ext))
    }
}

/// The model of what reading a file gave: its content, or the reason why
/// there is none.
pub open spec fn content_view(content: Result<String, String>) -> Result<Seq<char>, Seq<char>> {
    match content {
        Ok(text) => Ok(text@),
        Err(reason) => Err(reason@),
    }
}

/// The listing of an entry that is a file: that of its content, or the
/// error that says why it could not be read.
pub open spec fn entry_listing(
    path: Seq<char>,
    content: Result<Seq<char>, Seq<char>>,
    go_config: ConfigView,
    rust_config: ConfigView,
    globs: Seq<Seq<char>>,
) -> Result<Seq<char>, FileProcessorErrorView> {
    match content {
        Ok(source) => file_listing(path, source, go_config, rust_config, globs),
        Err(reason) => Err(FileProcessorErrorView::ErrorReadingFile(reason)),
    }
}

/// An entry of a directory listing with what reading it gave: the content
/// of the file, or the reason why there is none. For a directory the content
/// is not looked at.
#[derive(Debug)]
pub struct ReadFile {
    pub file: File,
    pub content: Result<String, String>,
}

/// The listings of the files among the first `upto` entries, in order.
/// Directories have none.
pub open spec fn listings(
    files: Seq<ReadFile>,
    go_config: ConfigView,
    rust_config: ConfigView,
    globs: Seq<Seq<char>>,
    upto: int,
) -> Seq<Result<Seq<char>, FileProcessorErrorView>>
    decreases upto,
{
    if upto <= 0 {
        Seq::empty()
    } else {
        let before = listings(files, go_config, rust_config, globs, upto - 1);
        if files[upto - 1].file.kind == FileKind::File {
            before.push(
                entry_listing(
                    files[upto - 1].file.path@,
                    content_view(files[upto - 1].content),
                    go_config,
                    rust_config,
                    globs,
                ),
            )
        } else {
            before
        }
    }
}

/// The positions of the files among the first `upto` entries, in order.
pub open spec fn file_positions(files: Seq<ReadFile>, upto: int) -> Seq<int>
    decreases upto,
{
    if upto <= 0 {
        Seq::empty()
    } else if files[upto - 1].file.kind == FileKind::File {
        file_positions(files, upto - 1).push(upto - 1)
    } else {
        file_positions(files, upto - 1)
    }
}

/// Whether `result` is a listing of an entry that is a file: a listing of
/// its content, or the error that says why it could not be read.
pub open spec fn is_entry_listing(
    entry: ReadFile,
    go_config: ConfigView,
    rust_config: ConfigView,
    globs: Seq<Seq<char>>,
    result: Result<Seq<char>, FileProcessorErrorView>,
) -> bool {
    match entry.content {
        Ok(source) => is_file_listing(
            entry.file.path@,
            source@,
            go_config,
            rust_config,
            globs,
            result,
        ),
        Err(reason) => result == Err::<Seq<char>, FileProcessorErrorView>(
            FileProcessorErrorView::ErrorReadingFile(reason@),
        ),
    }
}

/// Whether `results` are the listings of the files among the first `upto`
/// entries, whatever rules the configurations hold: one result for each
/// file, in the order of the entries, each a listing of its own file
/// whatever became of the others, and none for a directory.
pub open spec fn are_listings(
    files: Seq<ReadFile>,
    go_config: ConfigView,
    rust_config: ConfigView,
    globs: Seq<Seq<char>>,
    upto: int,
    results: Seq<Result<Seq<char>, FileProcessorErrorView>>,
) -> bool {
    let at = file_positions(files, upto);
    &&& results.len() == at.len()
    &&& forall|k: int|
        0 <= k < at.len() ==> is_entry_listing(
            files[at[k]],
            go_config,
            rust_config,
            globs,
            #[trigger] results[k],
        )
}

/// The models of a list of listings.
pub open spec fn listing_results(results: Seq<Result<String, FileProcessorError>>) -> Seq<
    Result<Seq<char>, FileProcessorErrorView>,
> {
    results.map_values(|r: Result<String, FileProcessorError>| listing_result(r))
}

/// Makes the listings of the files of a directory listing, in the order of
/// the listing. Where the rules of both configurations all have a model,
/// the listings are those that the models give.
pub fn process_files(
    files: &[ReadFile],
    go_config: &ParseConfig,
    rust_config: &ParseConfig,
    glob_matcher: &GlobPatternMatcher,
) -> (results: Vec<Result<String, FileProcessorError>>)
    ensures
        are_listings(
            files@,
            go_config@,
            rust_config@,
            glob_matcher@,
            files.len() as int,
            listing_results(results@),
        ),
        has_models(go_config@.registry) && has_models(rust_config@.registry) ==> listing_results(
            results@,
        ) == listings(files@, go_config@, rust_config@, glob_matcher@, files.len() as int),
{
    let mut results: Vec<Result<String, FileProcessorError>> = Vec::new();
    let mut i: usize = 0;
    while i < files.len()
        invariant
            0 <= i <= files.len(),
            are_listings(
                files@,
                go_config@,
                rust_config@,
                glob_matcher@,
                i as int,
                listing_results(results@),
            ),
            has_models(go_config@.registry) && has_models(rust_config@.registry)
                ==> listing_results(results@) == listings(
                files@,
                go_config@,
                rust_config@,
                glob_matcher@,
                i as int,
            ),
        decreases files.len() - i,
    {
        let ghost before = listing_results(results@);
        match files[i].file.kind {
            FileKind::File => {
                let result = match &files[i].content {
                    Ok(source) => process_file(
                        files[i].file.path.as_str(),
                        source.as_str(),
                        go_config,
                        rust_config,
                        glob_matcher,
                    ),
                    Err(reason) => Err(FileProcessorError::ErrorReadingFile(reason.clone())),
                };
                let ghost listed = listing_result(result);
                results.push(result);
                proof {
                    let now = listing_results(results@);
                    let at = file_positions(files@, i + 1);
                    assert(now =~= before.push(listed));
                    assert(is_entry_listing(
                        files@[i as int],
                        go_config@,
                        rust_config@,
                        glob_matcher@,
                        listed,
                    ));
                    assert forall|k: int| 0 <= k < at.len() implies is_entry_listing(
                        files@[at[k]],
                        go_config@,
                        rust_config@,
                        glob_matcher@,
                        #[trigger] now[k],
                    ) by {
                        if k < before.len() {
                            assert(now[k] == before[k]);
                        }
                    }
                }
            },
            FileKind::Directory => {},
        }
        i += 1;
    }
    results
}

} // verus!
