use minigrep::search;
use minigrep::search_case_insensitive;

#[test]
fn case_sensitive_no_result() {
    let query = "philanthropist";
    let contents = "no such thing";

    assert_eq!(vec![] as Vec<&str>, search(query, contents));
}

#[test]
fn case_sensitive_one_result() {
    let query = "duct";
    let contents = "Rust:\nsafe, fast, productive.\nPick three.";

    assert_eq!(vec!["safe, fast, productive."], search(query, contents));
}

#[test]
fn case_insensitive_one_result() {
    let query = "rUsT";
    let contents = "Rust:\nsafe, fast, productive.\nPick three.\nTrust me.";

    assert_eq!(
        vec!["Rust:", "Trust me."],
        search_case_insensitive(query, contents)
    );
}

#[test]
fn empty_query_returns_every_line() {
    let contents = "alpha\nbeta\ngamma";

    assert_eq!(vec!["alpha", "beta", "gamma"], search("", contents));
}

#[test]
fn empty_contents_has_no_lines() {
    assert_eq!(vec![] as Vec<&str>, search("", ""));
}

#[test]
fn returned_lines_keep_order_and_multiplicity() {
    let contents = "abc\nxyz\nbab\nabc";

    assert_eq!(vec!["abc", "bab", "abc"], search("ab", contents));
}

#[test]
fn search_twice_gives_identical_output() {
    let query = "st";
    let contents = "Rust:\nsafe, fast, productive.\nPick three.";

    assert_eq!(search(query, contents), search(query, contents));
}

#[test]
fn crlf_line_breaks_are_stripped() {
    let contents = "one\r\ntwo\r\nthree";

    assert_eq!(vec!["two"], search("tw", contents));
    assert_eq!(vec!["one", "two", "three"], search("", contents));
}

#[test]
fn trailing_newline_adds_no_empty_line() {
    let contents = "end\n";

    assert_eq!(vec!["end"], search("", contents));
}

#[test]
fn lone_carriage_return_stays_in_line() {
    let contents = "odd\rmiddle\nlast\r";

    assert_eq!(vec!["odd\rmiddle"], search("odd", contents));
    assert_eq!(vec!["last\r"], search("last", contents));
}

#[test]
fn case_sensitive_search_distinguishes_case() {
    let contents = "Rust is here";

    assert_eq!(vec![] as Vec<&str>, search("rust", contents));
    assert_eq!(vec!["Rust is here"], search_case_insensitive("rust", contents));
}

#[test]
fn case_insensitive_no_result() {
    let contents = "nothing of note";

    assert_eq!(
        vec![] as Vec<&str>,
        search_case_insensitive("absent", contents)
    );
}

#[test]
fn case_insensitive_multibyte_lowercasing() {
    let query = "GRO\u{1e9e}E";
    let contents = "die gro\u{df}e Idee\nnichts davon";

    assert_eq!(
        vec!["die gro\u{df}e Idee"],
        search_case_insensitive(query, contents)
    );
}
