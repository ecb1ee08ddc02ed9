//! The diff text: which staged files take part, and how their diffs are laid
//! out.
//!
//! `git` reports the staged files one name per line. A name that equals one
//! of the excluded names is dropped; a name that merely contains one stays.
//! Each file that is left gets a block of lines: an empty line, a separator
//! line and a line with its name, followed by the lines of its diff, each
//! with a `+` in front. The diff text is all these lines with newlines between
//! them.

use crate::text::{all_lines, is_line, join_lines, joined, lines_of, same_text, split_lines};
use vstd::prelude::*;

verus! {

/// A staged file with the diff that `git` printed for it.
#[derive(Clone, Debug, PartialEq, Eq)]
pub struct StagedFile {
    /// The path as `git` reports it.
    pub name: String,
    /// The staged diff of the file, as printed.
    pub diff: String,
}

/// A staged file as plain values.
pub struct StagedFileView {
    pub name: Seq<char>,
    pub diff: Seq<char>,
}

impl View for StagedFile {
    type V = StagedFileView;

    open spec fn view(&self) -> StagedFileView {
        StagedFileView { name: self.name@, diff: self.diff@ }
    }
}

impl DeepView for StagedFile {
    type V = StagedFileView;

    open spec fn deep_view(&self) -> StagedFileView {
        self@
    }
}

/// The arguments with which `git` lists the staged files that were added,
/// copied or modified, one name per line.
pub open spec fn listing_arguments() -> Seq<Seq<char>> {
    seq!["diff"@, "--cached"@, "--name-only"@, "--diff-filter=ACM"@]
}

/// The arguments with which `git` prints the staged diff of one path.
pub open spec fn diff_arguments(path: Seq<char>) -> Seq<Seq<char>> {
    seq!["diff"@, "--cached"@, path]
}

/// The line that separates one file's block from what stands before it.
pub open spec fn separator() -> Seq<char> {
    "---------------------------"@
}

/// What a name line starts with.
pub open spec fn name_tag() -> Seq<char> {
    " name:"@
}

/// The three lines that open the block of the file `name`: an empty line,
/// the separator, and the name behind its tag.
pub open spec fn header_lines(name: Seq<char>) -> Seq<Seq<char>> {
    seq![Seq::empty(), separator(), name_tag() + name]
}

/// A diff line as it stands in the diff text: with a `+` in front, whatever
/// the line itself starts with.
pub open spec fn marked(line: Seq<char>) -> Seq<char> {
    seq!['+'] + line
}

/// The given lines, each marked.
pub open spec fn marked_lines(lines: Seq<Seq<char>>) -> Seq<Seq<char>> {
    lines.map_values(|line: Seq<char>| marked(line))
}

/// The lines of one file's block.
pub open spec fn block_lines(file: StagedFileView) -> Seq<Seq<char>> {
    header_lines(file.name) + marked_lines(lines_of(file.diff))
}

/// The lines of the diff text: the blocks of the files, in their order.
pub open spec fn diff_lines(files: Seq<StagedFileView>) -> Seq<Seq<char>> {
    files.map_values(|file: StagedFileView| block_lines(file)).flatten()
}

/// The diff text of the given files.
pub open spec fn diff_text(files: Seq<StagedFileView>) -> Seq<char> {
    joined(diff_lines(files))
}

/// The names that no exclude equals, in their order.
pub open spec fn kept_names(names: Seq<Seq<char>>, excludes: Seq<Seq<char>>) -> Seq<Seq<char>> {
    names.filter(|name: Seq<char>| !excludes.contains(name))
}

/// The files that take part in the diff, given what `git` listed.
pub open spec fn staged_names(listing: Seq<char>, excludes: Seq<Seq<char>>) -> Seq<Seq<char>> {
    kept_names(lines_of(listing), excludes)
}

/// The names of the files, in their order.
pub open spec fn names_of(files: Seq<StagedFileView>) -> Seq<Seq<char>> {
    files.map_values(|file: StagedFileView| file.name)
}

proof fn lemma_kept_names_push(names: Seq<Seq<char>>, name: Seq<char>, excludes: Seq<Seq<char>>)
    ensures
        kept_names(names.push(name), excludes) == if excludes.contains(name) {
            kept_names(names, excludes)
        } else {
            kept_names(names, excludes).push(name)
        },
{
    names.lemma_filter_push(name, |name: Seq<char>| !excludes.contains(name));
}

proof fn lemma_diff_lines_push(files: Seq<StagedFileView>, file: StagedFileView)
    ensures
        diff_lines(files.push(file)) == diff_lines(files) + block_lines(file),
{
    let block = |file: StagedFileView| block_lines(file);
    assert(files.push(file).map_values(block) == files.map_values(block).push(block_lines(file)));
    files.map_values(block).lemma_flatten_push(block_lines(file));
}

/// The arguments for `git` that list the staged files.
pub fn listing_command() -> (arguments: Vec<String>)
    ensures
        arguments.deep_view() == listing_arguments(),
{
    let mut arguments: Vec<String> = Vec::new();
    arguments.push("diff".to_owned());
    arguments.push("--cached".to_owned());
    arguments.push("--name-only".to_owned());
    arguments.push("--diff-filter=ACM".to_owned());
    arguments
}

/// The arguments for `git` that print the staged diff of `path`.
pub fn diff_command(path: &str) -> (arguments: Vec<String>)
    ensures
        arguments.deep_view() == diff_arguments(path@),
{
    let mut arguments: Vec<String> = Vec::new();
    arguments.push("diff".to_owned());
    arguments.push("--cached".to_owned());
    arguments.push(path.to_owned());
    arguments
}

/// Whether one of the excluded names equals `name`.
pub fn is_excluded(name: &str, excludes: &Vec<String>) -> (excluded: bool)
    ensures
        excluded == excludes.deep_view().contains(name@),
{
    let mut i: usize = 0;
    while i < excludes.len()
        invariant
            i <= excludes.len(),
            forall|k: int| 0 <= k < i ==> excludes.deep_view()[k] != name@,
        decreases excludes.len() - i,
    {
        if same_text(excludes[i].as_str(), name) {
            assert(excludes.deep_view()[i as int] == name@);
            return true;
        }
        i += 1;
    }
    false
}

/// Drops the names that an exclude equals and keeps the others in their
/// order.
pub fn keep_names(names: &Vec<String>, excludes: &Vec<String>) -> (kept: Vec<String>)
    ensures
        kept.deep_view() == kept_names(names.deep_view(), excludes.deep_view()),
{
    let mut kept: Vec<String> = Vec::new();
    let mut i: usize = 0;
    while i < names.len()
        invariant
            i <= names.len(),
            kept.deep_view() == kept_names(names.deep_view().take(i as int), excludes.deep_view()),
        decreases names.len() - i,
    {
        proof {
            assert(names.deep_view().take(i + 1) == names.deep_view().take(i as int).push(
                names[i as int]@,
            ));
            lemma_kept_names_push(
                names.deep_view().take(i as int),
                names[i as int]@,
                excludes.deep_view(),
            );
        }
        if !is_excluded(names[i].as_str(), excludes) {
            kept.push(names[i].clone());
        }
        i += 1;
    }
    assert(names.deep_view().take(names.len() as int) == names.deep_view());
    kept
}

/// The names of the files that take part in the diff: the lines of what
/// `git` listed, without those that an exclude equals.
pub fn staged_files(listing: &str, excludes: &Vec<String>) -> (staged: Vec<String>)
    ensures
        staged.deep_view() == staged_names(listing@, excludes.deep_view()),
{
    let names = split_lines(listing);
    keep_names(&names, excludes)
}

/// Puts a `+` in front of one diff line.
pub fn mark_line(line: &str) -> (out: String)
    ensures
        out@ == marked(line@),
{
    let mut out = String::new();
    out.push('+');
    out.append(line);
    out
}

/// The lines of one file's block: its header, then its diff line by line,
/// each line marked.
pub fn block_of(file: &StagedFile) -> (lines: Vec<String>)
    ensures
        lines.deep_view() == block_lines(file@),
{
    let mut name_line = " name:".to_owned();
    name_line.append(file.name.as_str());
    let mut lines: Vec<String> = Vec::new();
    lines.push(String::new());
    lines.push("---------------------------".to_owned());
    lines.push(name_line);

    let source = split_lines(file.diff.as_str());
    let mut i: usize = 0;
    while i < source.len()
        invariant
            i <= source.len(),
            source.deep_view() == lines_of(file@.diff),
            lines.deep_view() == header_lines(file@.name) + marked_lines(
                source.deep_view().take(i as int),
            ),
        decreases source.len() - i,
    {
        let ghost before = lines.deep_view();
        lines.push(mark_line(source[i].as_str()));
        assert(lines.deep_view() == before.push(marked(source[i as int]@)));
        i += 1;
    }
    lines
}

/// Lays out the diff text of the given files.
pub fn render_diff(files: &Vec<StagedFile>) -> (text: String)
    ensures
        text@ == diff_text(files.deep_view()),
{
    let mut lines: Vec<String> = Vec::new();
    let mut i: usize = 0;
    while i < files.len()
        invariant
            i <= files.len(),
            lines.deep_view() == diff_lines(files.deep_view().take(i as int)),
        decreases files.len() - i,
    {
        let mut block = block_of(&files[i]);
        lines.append(&mut block);
        proof {
            assert(files.deep_view().take(i + 1) == files.deep_view().take(i as int).push(
                files[i as int]@,
            ));
            lemma_diff_lines_push(files.deep_view().take(i as int), files[i as int]@);
        }
        i += 1;
    }
    assert(files.deep_view().take(files.len() as int) == files.deep_view());
    join_lines(&lines)
}

/// A name line starts with the name tag.
pub open spec fn is_name_line(line: Seq<char>) -> bool {
    name_tag().is_prefix_of(line)
}

/// A marked line starts with `+`.
pub open spec fn is_marked(line: Seq<char>) -> bool {
    line.len() > 0 && line[0] == '+'
}

/// A line that can stand in a header: an empty line, the separator or a name
/// line.
pub open spec fn is_header_line(line: Seq<char>) -> bool {
    line.len() == 0 || line == separator() || is_name_line(line)
}

/// The names of the headers that stand in `lines`, in their order. A header
/// stands wherever an empty line, the separator and a name line follow one
/// another.
pub open spec fn headers(lines: Seq<Seq<char>>) -> Seq<Seq<char>>
    decreases lines.len(),
{
    if lines.len() < 3 {
        Seq::empty()
    } else {
        let before = headers(lines.drop_last());
        let last = lines.len() - 1;
        if lines[last - 2].len() == 0 && lines[last - 1] == separator() && is_name_line(
            lines[last],
        ) {
            before.push(lines[last].skip(name_tag().len() as int))
        } else {
            before
        }
    }
}

/// The marked lines among `lines`, each without its mark.
pub open spec fn unmarked(lines: Seq<Seq<char>>) -> Seq<Seq<char>> {
    lines.filter(|line: Seq<char>| is_marked(line)).map_values(|line: Seq<char>| line.skip(1))
}

/// The lines of the diffs of all the files, in their order.
pub open spec fn source_lines(files: Seq<StagedFileView>) -> Seq<Seq<char>> {
    files.map_values(|file: StagedFileView| lines_of(file.diff)).flatten()
}

proof fn lemma_fixed_lines()
    ensures
        separator().len() == 27,
        separator()[0] == '-',
        is_line(separator()),
        name_tag().len() == 6,
        name_tag()[0] == ' ',
        is_line(name_tag()),
{
    reveal_strlit("---------------------------");
    reveal_strlit(" name:");
}

proof fn lemma_name_line(name: Seq<char>)
    ensures
        is_name_line(name_tag() + name),
        (name_tag() + name).skip(name_tag().len() as int) == name,
        (name_tag() + name).len() > 0,
        (name_tag() + name)[0] == ' ',
        is_line(name) ==> is_line(name_tag() + name),
{
    lemma_fixed_lines();
}

proof fn lemma_marked_line(line: Seq<char>)
    ensures
        is_marked(marked(line)),
        !is_name_line(marked(line)),
        marked(line).skip(1) == line,
        is_line(line) ==> is_line(marked(line)),
{
    lemma_fixed_lines();
}

proof fn lemma_headers_skip_other_lines(lines: Seq<Seq<char>>, more: Seq<Seq<char>>)
    requires
        forall|i: int| 0 <= i < more.len() ==> !is_name_line(#[trigger] more[i]),
    ensures
        headers(lines + more) == headers(lines),
    decreases more.len(),
{
    if more.len() > 0 {
        lemma_headers_skip_other_lines(lines, more.drop_last());
        assert((lines + more).drop_last() == lines + more.drop_last());
    }
}

proof fn lemma_headers_take_header(lines: Seq<Seq<char>>, name: Seq<char>)
    ensures
        headers(lines + header_lines(name)) == headers(lines).push(name),
{
    lemma_fixed_lines();
    lemma_name_line(name);
    let opened = seq![Seq::<char>::empty(), separator()];
    assert((lines + header_lines(name)).drop_last() == lines + opened);
    lemma_headers_skip_other_lines(lines, opened);
}

proof fn lemma_marked_lines(lines: Seq<Seq<char>>)
    ensures
        unmarked(marked_lines(lines)) == lines,
        forall|i: int| 0 <= i < lines.len() ==> !is_name_line(#[trigger] marked_lines(lines)[i]),
    decreases lines.len(),
{
    let is_mark = |line: Seq<char>| is_marked(line);
    let strip = |line: Seq<char>| line.skip(1);
    if lines.len() > 0 {
        let before = lines.drop_last();
        lemma_marked_lines(before);
        lemma_marked_line(lines.last());
        assert(marked_lines(lines) == marked_lines(before).push(marked(lines.last())));
        marked_lines(before).lemma_filter_push(marked(lines.last()), is_mark);
        assert(marked_lines(before).filter(is_mark).push(marked(lines.last())).map_values(strip)
            == marked_lines(before).filter(is_mark).map_values(strip).push(lines.last()));
    }
}

proof fn lemma_unmarked_add(left: Seq<Seq<char>>, right: Seq<Seq<char>>)
    ensures
        unmarked(left + right) == unmarked(left) + unmarked(right),
{
    Seq::filter_distributes_over_add(left, right, |line: Seq<char>| is_marked(line));
}

proof fn lemma_unmarked_header(name: Seq<char>)
    ensures
        unmarked(header_lines(name)) == Seq::<Seq<char>>::empty(),
{
    lemma_fixed_lines();
    let is_mark = |line: Seq<char>| is_marked(line);
    let none = Seq::<Seq<char>>::empty();
    none.lemma_filter_push(Seq::empty(), is_mark);
    none.push(Seq::empty()).lemma_filter_push(separator(), is_mark);
    none.push(Seq::empty()).push(separator()).lemma_filter_push(name_tag() + name, is_mark);
    assert(header_lines(name) == none.push(Seq::empty()).push(separator()).push(
        name_tag() + name,
    ));
}

proof fn lemma_source_lines_push(files: Seq<StagedFileView>, file: StagedFileView)
    ensures
        source_lines(files.push(file)) == source_lines(files) + lines_of(file.diff),
{
    let source = |file: StagedFileView| lines_of(file.diff);
    assert(files.push(file).map_values(source) == files.map_values(source).push(
        lines_of(file.diff),
    ));
    files.map_values(source).lemma_flatten_push(lines_of(file.diff));
}

/// Whatever the files hold, the headers among the lines of the diff text are
/// those of the files, one each and in their order; every line is a header
/// line or a marked line; and the marked lines without their marks are the
/// lines of the diffs.
pub proof fn lemma_diff_lines_hold_the_files(files: Seq<StagedFileView>)
    ensures
        headers(diff_lines(files)) == names_of(files),
        unmarked(diff_lines(files)) == source_lines(files),
        forall|i: int|
            0 <= i < diff_lines(files).len() ==> is_header_line(#[trigger] diff_lines(files)[i])
                || is_marked(diff_lines(files)[i]),
    decreases files.len(),
{
    if files.len() > 0 {
        let before = files.drop_last();
        let file = files.last();
        let content = marked_lines(lines_of(file.diff));
        assert(before.push(file) == files);
        lemma_diff_lines_hold_the_files(before);
        lemma_diff_lines_push(before, file);
        lemma_source_lines_push(before, file);
        lemma_marked_lines(lines_of(file.diff));

        assert(diff_lines(files) == (diff_lines(before) + header_lines(file.name)) + content);
        lemma_headers_skip_other_lines(diff_lines(before) + header_lines(file.name), content);
        lemma_headers_take_header(diff_lines(before), file.name);

        lemma_unmarked_add(diff_lines(before), header_lines(file.name));
        lemma_unmarked_header(file.name);
    }
}

proof fn lemma_diff_lines_are_lines(files: Seq<StagedFileView>)
    requires
        all_lines(names_of(files)),
    ensures
        all_lines(diff_lines(files)),
        diff_lines(files).len() > 0 ==> diff_lines(files).last().len() > 0,
    decreases files.len(),
{
    if files.len() > 0 {
        let before = files.drop_last();
        let file = files.last();
        assert(before.push(file) == files);
        assert(all_lines(names_of(before))) by {
            assert forall|i: int| 0 <= i < names_of(before).len() implies is_line(
                #[trigger] names_of(before)[i],
            ) by {
                assert(names_of(before)[i] == names_of(files)[i]);
            }
        }
        assert(is_line(file.name)) by {
            assert(names_of(files)[files.len() - 1] == file.name);
        }
        lemma_diff_lines_are_lines(before);
        lemma_diff_lines_push(before, file);
        lemma_fixed_lines();
        crate::text::lemma_lines_of_are_lines(file.diff);
    }
}

/// Read line by line, the diff text holds the lines it was made of, as long
/// as no file name holds a newline.
pub proof fn lemma_diff_text_reads_back(files: Seq<StagedFileView>)
    requires
        all_lines(names_of(files)),
    ensures
        lines_of(diff_text(files)) == diff_lines(files),
{
    lemma_diff_lines_are_lines(files);
    crate::text::lemma_lines_of_joined(diff_lines(files));
}

/// The names that `git` listed and no exclude equals hold no newline.
pub proof fn lemma_staged_names_are_lines(listing: Seq<char>, excludes: Seq<Seq<char>>)
    ensures
        all_lines(staged_names(listing, excludes)),
{
    let keep = |name: Seq<char>| !excludes.contains(name);
    let listed = lines_of(listing);
    crate::text::lemma_lines_of_are_lines(listing);
    assert forall|i: int| 0 <= i < listed.filter(keep).len() implies is_line(
        #[trigger] listed.filter(keep)[i],
    ) by {
        listed.lemma_filter_contains_rev(keep, listed.filter(keep)[i]);
    }
}

/// No file that an exclude names has a header in the diff text: whatever
/// `git` listed and whatever the diffs hold, when the files are those that
/// take part, the diff text has no header with an excluded name.
pub proof fn lemma_excluded_files_have_no_header(
    listing: Seq<char>,
    excludes: Seq<Seq<char>>,
    files: Seq<StagedFileView>,
    name: Seq<char>,
)
    requires
        names_of(files) == staged_names(listing, excludes),
        excludes.contains(name),
    ensures
        !headers(lines_of(diff_text(files))).contains(name),
{
    let keep = |name: Seq<char>| !excludes.contains(name);
    lemma_staged_names_are_lines(listing, excludes);
    lemma_diff_text_reads_back(files);
    lemma_diff_lines_hold_the_files(files);
    if lines_of(listing).filter(keep).contains(name) {
        lines_of(listing).lemma_filter_contains_rev(keep, name);
    }
}

/// With no excludes, every file that `git` listed has exactly one header in
/// the diff text, and the headers stand in the order of the listing.
pub proof fn lemma_every_listed_file_has_one_header(
    listing: Seq<char>,
    files: Seq<StagedFileView>,
)
    requires
        names_of(files) == staged_names(listing, Seq::empty()),
    ensures
        headers(lines_of(diff_text(files))) == lines_of(listing),
{
    let none = Seq::<Seq<char>>::empty();
    lemma_staged_names_are_lines(listing, none);
    lemma_diff_text_reads_back(files);
    lemma_diff_lines_hold_the_files(files);
    lemma_keep_all(lines_of(listing));
}

proof fn lemma_keep_all(names: Seq<Seq<char>>)
    ensures
        kept_names(names, Seq::empty()) == names,
    decreases names.len(),
{
    if names.len() > 0 {
        lemma_keep_all(names.drop_last());
        lemma_kept_names_push(names.drop_last(), names.last(), Seq::empty());
        assert(names.drop_last().push(names.last()) == names);
    }
}

/// Which names are kept depends on which names are excluded, not on the
/// order of the excludes nor on how often one of them is given.
pub proof fn lemma_exclude_order_is_irrelevant(
    names: Seq<Seq<char>>,
    first: Seq<Seq<char>>,
    second: Seq<Seq<char>>,
)
    requires
        forall|name: Seq<char>| first.contains(name) <==> second.contains(name),
    ensures
        kept_names(names, first) == kept_names(names, second),
    decreases names.len(),
{
    if names.len() > 0 {
        lemma_exclude_order_is_irrelevant(names.drop_last(), first, second);
        lemma_kept_names_push(names.drop_last(), names.last(), first);
        lemma_kept_names_push(names.drop_last(), names.last(), second);
        assert(names.drop_last().push(names.last()) == names);
    }
}

/// Excluding one set of names and then another from what is left keeps the
/// same names as excluding both sets at once.
pub proof fn lemma_excludes_apply_in_turn(
    names: Seq<Seq<char>>,
    first: Seq<Seq<char>>,
    second: Seq<Seq<char>>,
)
    ensures
        kept_names(kept_names(names, first), second) == kept_names(names, first + second),
    decreases names.len(),
{
    if names.len() > 0 {
        let before = names.drop_last();
        let name = names.last();
        lemma_excludes_apply_in_turn(before, first, second);
        lemma_kept_names_push(before, name, first);
        lemma_kept_names_push(before, name, first + second);
        lemma_kept_names_push(kept_names(before, first), name, second);
        assert(before.push(name) == names);
        assert((first + second).contains(name) <==> first.contains(name) || second.contains(name))
            by {
            if first.contains(name) {
                let at = choose|at: int| 0 <= at < first.len() && first[at] == name;
                assert((first + second)[at] == name);
            }
            if second.contains(name) {
                let at = choose|at: int| 0 <= at < second.len() && second[at] == name;
                assert((first + second)[first.len() + at] == name);
            }
        }
    }
}

/// Every line of the diff text that does not belong to a header starts with
/// `+`, and taking that one `+` away from each such line gives the lines of
/// the diffs back, whatever they started with.
pub proof fn lemma_content_lines_are_marked(files: Seq<StagedFileView>)
    requires
        all_lines(names_of(files)),
    ensures
        forall|i: int|
            0 <= i < lines_of(diff_text(files)).len() ==> is_header_line(
                #[trigger] lines_of(diff_text(files))[i],
            ) || is_marked(lines_of(diff_text(files))[i]),
        unmarked(lines_of(diff_text(files))) == source_lines(files),
{
    lemma_diff_text_reads_back(files);
    lemma_diff_lines_hold_the_files(files);
}

} // verus!
