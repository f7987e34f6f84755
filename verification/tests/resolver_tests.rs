use run_vsearch::{find_files, BatchError, Entry, Probe};

fn file(name: &str) -> Entry {
    Entry { name: name.to_string(), probe: Probe::File }
}

fn dir(name: &str, entries: Vec<Entry>) -> Entry {
    Entry { name: name.to_string(), probe: Probe::Directory(entries) }
}

fn missing(name: &str) -> Entry {
    Entry { name: name.to_string(), probe: Probe::Missing }
}

fn other(name: &str) -> Entry {
    Entry { name: name.to_string(), probe: Probe::Other }
}

fn owned(items: &[&str]) -> Vec<String> {
    items.iter().map(|s| s.to_string()).collect()
}

#[test]
fn directory_gives_its_files_and_passes_over_its_subdirectories() {
    let inputs = vec![dir(
        "data",
        vec![file("a.fa"), file("b.fa"), dir("sub", vec![file("x.fa")]), file("c.fa")],
    )];
    assert_eq!(find_files(&inputs, false), Ok(owned(&["data/a.fa", "data/b.fa", "data/c.fa"])));
}

#[test]
fn empty_directory_gives_no_input_files() {
    let inputs = vec![dir("empty", vec![])];
    let error = find_files(&inputs, false).unwrap_err();
    assert_eq!(error, BatchError::NoInputFiles { paths: owned(&["empty"]) });
    assert_eq!(error.message(), "No input files can be found in empty");
    assert_eq!(find_files(&inputs, true), Err(BatchError::NoInputFiles { paths: owned(&["empty"]) }));
}

#[test]
fn no_inputs_give_no_input_files() {
    assert_eq!(find_files(&vec![], false), Err(BatchError::NoInputFiles { paths: vec![] }));
}

#[test]
fn directories_without_files_are_named_in_the_error() {
    let inputs = vec![dir("a", vec![dir("deep", vec![file("x")])]), dir("b/c", vec![other("pipe")])];
    let error = find_files(&inputs, false).unwrap_err();
    assert_eq!(error, BatchError::NoInputFiles { paths: owned(&["a", "b/c"]) });
    assert_eq!(error.message(), "No input files can be found in a, b/c");
}

#[test]
fn recursive_walk_descends_into_subdirectories() {
    let inputs = vec![dir(
        "data",
        vec![
            file("a.fa"),
            dir("sub", vec![file("x.fa"), dir("deeper", vec![file("y.fa")]), file("z.fa")]),
            file("c.fa"),
        ],
    )];
    assert_eq!(
        find_files(&inputs, true),
        Ok(owned(&[
            "data/a.fa",
            "data/sub/x.fa",
            "data/sub/deeper/y.fa",
            "data/sub/z.fa",
            "data/c.fa"
        ]))
    );
}

#[test]
fn file_inputs_are_taken_as_given_and_in_order() {
    let inputs = vec![file("z.fa"), file("/abs/a.fa"), dir("d/", vec![file("m.fa")]), file("./b.fa")];
    assert_eq!(
        find_files(&inputs, false),
        Ok(owned(&["z.fa", "/abs/a.fa", "d/m.fa", "./b.fa"]))
    );
}

#[test]
fn file_reached_twice_is_listed_twice() {
    let inputs = vec![file("d/a.fa"), dir("d", vec![file("a.fa")]), file("d/a.fa")];
    assert_eq!(find_files(&inputs, false), Ok(owned(&["d/a.fa", "d/a.fa", "d/a.fa"])));
}

#[test]
fn missing_input_is_not_found() {
    let inputs = vec![file("a.fa"), missing("gone"), missing("also gone")];
    let error = find_files(&inputs, false).unwrap_err();
    assert_eq!(error, BatchError::NotFound { path: "gone".to_string() });
    assert_eq!(error.message(), "Cannot read \"gone\"");
}

#[test]
fn input_that_is_neither_file_nor_directory_is_not_found() {
    let inputs = vec![file("a.fa"), other("/dev/null")];
    assert_eq!(
        find_files(&inputs, false),
        Err(BatchError::NotFound { path: "/dev/null".to_string() })
    );
}

#[test]
fn other_entries_of_a_directory_are_passed_over() {
    let inputs = vec![dir("d", vec![other("socket"), file("a.fa"), other("link")])];
    assert_eq!(find_files(&inputs, false), Ok(owned(&["d/a.fa"])));
    assert_eq!(find_files(&inputs, true), Ok(owned(&["d/a.fa"])));
}

#[test]
fn unreadable_entry_of_a_directory_is_not_found() {
    let inputs = vec![dir("d", vec![file("a.fa"), missing("b.fa"), file("c.fa")]), missing("later")];
    assert_eq!(
        find_files(&inputs, false),
        Err(BatchError::NotFound { path: "d/b.fa".to_string() })
    );
}

#[test]
fn unreadable_entry_below_is_met_by_a_recursive_walk_only() {
    let inputs = vec![dir("d", vec![dir("sub", vec![missing("x")]), file("a.fa")])];
    assert_eq!(find_files(&inputs, false), Ok(owned(&["d/a.fa"])));
    assert_eq!(
        find_files(&inputs, true),
        Err(BatchError::NotFound { path: "d/sub/x".to_string() })
    );
}

#[test]
fn first_obstacle_in_the_order_of_the_walk_is_reported() {
    let inputs = vec![
        dir("d", vec![file("a"), dir("s", vec![missing("deep")]), missing("flat")]),
        missing("top"),
    ];
    assert_eq!(find_files(&inputs, true), Err(BatchError::NotFound { path: "d/s/deep".to_string() }));
    assert_eq!(find_files(&inputs, false), Err(BatchError::NotFound { path: "d/flat".to_string() }));
}
