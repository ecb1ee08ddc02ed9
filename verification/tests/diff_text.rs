use rcommit::diff::{
    block_of, diff_command, is_excluded, keep_names, listing_command, mark_line, render_diff,
    staged_files, StagedFile,
};
use rcommit::text::split_lines;

const SEPARATOR: &str = "---------------------------";

fn owned(lines: &[&str]) -> Vec<String> {
    lines.iter().map(|line| line.to_string()).collect()
}

fn file(name: &str, diff: &str) -> StagedFile {
    StagedFile { name: name.to_string(), diff: diff.to_string() }
}

/// The names of the headers in a diff text: wherever an empty line, the
/// separator and a name line follow one another.
fn headers(text: &str) -> Vec<String> {
    let lines = split_lines(text);
    let mut names = Vec::new();
    for at in 2..lines.len() {
        if lines[at - 2].is_empty() && lines[at - 1] == SEPARATOR {
            if let Some(name) = lines[at].strip_prefix(" name:") {
                names.push(name.to_string());
            }
        }
    }
    names
}

#[test]
fn git_is_asked_for_added_copied_and_modified_files() {
    assert_eq!(
        listing_command(),
        owned(&["diff", "--cached", "--name-only", "--diff-filter=ACM"])
    );
}

#[test]
fn git_is_asked_for_the_staged_diff_of_one_path() {
    assert_eq!(diff_command("src/a b.rs"), owned(&["diff", "--cached", "src/a b.rs"]));
}

#[test]
fn excluding_in_turn_is_excluding_at_once() {
    let names = owned(&["a", "b", "c", "d", "b"]);
    let kept = keep_names(&keep_names(&names, &owned(&["b"])), &owned(&["d", "x"]));
    assert_eq!(kept, keep_names(&names, &owned(&["b", "d", "x"])));
    assert_eq!(kept, owned(&["a", "c"]));
}

#[test]
fn an_exclude_matches_the_whole_name_only() {
    let excludes = owned(&["a.txt", "src/main.rs"]);
    assert!(is_excluded("a.txt", &excludes));
    assert!(is_excluded("src/main.rs", &excludes));
    assert!(!is_excluded("ba.txt", &excludes));
    assert!(!is_excluded("a.txt.bak", &excludes));
    assert!(!is_excluded("a_txt", &excludes));
    assert!(!is_excluded("main.rs", &excludes));
    assert!(!is_excluded("", &excludes));
    assert!(!is_excluded("a.txt", &Vec::new()));
}

#[test]
fn an_exclude_is_no_pattern() {
    let excludes = owned(&["a.txt", ".*"]);
    assert!(!is_excluded("aXtxt", &excludes));
    assert!(!is_excluded("b.txt", &excludes));
    assert!(is_excluded(".*", &excludes));
}

#[test]
fn keep_names_drops_excluded_names_and_keeps_order() {
    let names = owned(&["c.txt", "a.txt", "b.txt", "a.txt", "d.txt"]);
    assert_eq!(keep_names(&names, &owned(&["a.txt", "d.txt"])), owned(&["c.txt", "b.txt"]));
    assert_eq!(keep_names(&names, &Vec::new()), names);
    assert_eq!(keep_names(&names, &owned(&["zzz"])), names);
    assert_eq!(keep_names(&Vec::new(), &owned(&["a.txt"])), Vec::<String>::new());
}

#[test]
fn the_order_of_the_excludes_does_not_matter() {
    let names = owned(&["a", "b", "c", "d"]);
    assert_eq!(
        keep_names(&names, &owned(&["b", "d"])),
        keep_names(&names, &owned(&["d", "b", "d"]))
    );
}

#[test]
fn staged_files_reads_one_name_per_line() {
    assert_eq!(
        staged_files("a.txt\nsrc/b c.rs\nb.txt\n", &owned(&["b.txt"])),
        owned(&["a.txt", "src/b c.rs"])
    );
    assert_eq!(staged_files("", &owned(&["b.txt"])), Vec::<String>::new());
    assert_eq!(staged_files("b.txt\n", &owned(&["b.txt"])), Vec::<String>::new());
}

#[test]
fn mark_line_puts_a_plus_in_front() {
    assert_eq!(mark_line("+added"), "++added");
    assert_eq!(mark_line("-removed"), "+-removed");
    assert_eq!(mark_line(" context"), "+ context");
    assert_eq!(mark_line(""), "+");
}

#[test]
fn block_of_has_a_header_and_marked_lines() {
    assert_eq!(
        block_of(&file("a.txt", "@@ -1 +1 @@\n-old\n+new\n")),
        owned(&["", SEPARATOR, " name:a.txt", "+@@ -1 +1 @@", "+-old", "++new"])
    );
}

#[test]
fn block_of_a_file_without_diff_is_its_header() {
    assert_eq!(block_of(&file("empty", "")), owned(&["", SEPARATOR, " name:empty"]));
}

#[test]
fn render_diff_of_no_files_is_empty() {
    assert_eq!(render_diff(&Vec::new()), "");
}

#[test]
fn render_diff_lays_out_one_file() {
    let text = render_diff(&vec![file(
        "a.txt",
        "diff --git a/a.txt b/a.txt\n@@ -1 +1 @@\n-bye\n+hello\n same\n",
    )]);
    assert_eq!(
        text,
        "\n---------------------------\n name:a.txt\n+diff --git a/a.txt b/a.txt\n+@@ -1 +1 @@\n+-bye\n++hello\n+ same"
    );
}

#[test]
fn render_diff_lays_out_the_files_in_their_order() {
    let text = render_diff(&vec![file("b.txt", "+x\n"), file("a.txt", ""), file("c", "l1\n\nl3")]);
    assert_eq!(
        text,
        "\n---------------------------\n name:b.txt\n++x\
         \n\n---------------------------\n name:a.txt\
         \n\n---------------------------\n name:c\n+l1\n+\n+l3"
    );
}

#[test]
fn excluded_files_have_no_header() {
    let excludes = owned(&["b.txt", "d.txt"]);
    let staged = staged_files("a.txt\nb.txt\nc.txt\nd.txt\nab.txt\n", &excludes);
    let files: Vec<StagedFile> =
        staged.iter().map(|name| file(name, "+line of b.txt\n")).collect();
    let found = headers(&render_diff(&files));
    assert_eq!(found, owned(&["a.txt", "c.txt", "ab.txt"]));
    for exclude in &excludes {
        assert!(!found.contains(exclude));
    }
}

#[test]
fn without_excludes_every_file_has_one_header_in_order() {
    let listing = "z.txt\na.txt\nm/n.rs\n";
    let staged = staged_files(listing, &Vec::new());
    let files: Vec<StagedFile> = staged.iter().map(|name| file(name, "-x\n+y\n")).collect();
    assert_eq!(headers(&render_diff(&files)), owned(&["z.txt", "a.txt", "m/n.rs"]));
}

#[test]
fn content_lines_start_with_plus_and_strip_back_to_the_diff() {
    let first = "diff --git a/a b/a\n--- a/a\n+++ b/a\n@@ -1,2 +1,2 @@\n-old\n+new\n same\n";
    let second = "\n name:fake\n---------------------------\n+\n";
    let text = render_diff(&vec![file("a", first), file("b", second)]);
    let lines = split_lines(&text);

    let mut stripped = Vec::new();
    for (at, line) in lines.iter().enumerate() {
        let in_header = at < 3 || (at >= 10 && at < 13);
        if in_header {
            assert!(!line.starts_with('+'));
        } else {
            assert!(line.starts_with('+'));
            stripped.push(line[1..].to_string());
        }
    }
    let mut source = split_lines(first);
    source.extend(split_lines(second));
    assert_eq!(stripped, source);
    assert_eq!(headers(&text), owned(&["a", "b"]));
}
