//! The closed set of operations that the tool is asked for by name.

use crate::error::{BatchError, BatchErrorView};
use crate::text::{
    contains_text,
    contains_text_transitive,
    join,
    join_contains_part,
    join_strings,
    occurs_at,
    text_before,
    text_before_at,
    text_before_irreflexive,
    text_before_transitive,
    texts,
};
use vstd::prelude::*;

verus! {

/// Every operation name, in the order in which a listing shows them.
pub open spec fn operation_catalog() -> Seq<Seq<char>> {
    seq![
        "allpairs_global"@,
        "cluster_fast"@,
        "cluster_size"@,
        "cluster_smallmem"@,
        "derep_fulllength"@,
        "derep_prefix"@,
        "fastq_chars"@,
        "fastq_convert"@,
        "fastq_eestats"@,
        "fastq_eestats2"@,
        "fastq_mergepairs"@,
        "fastq_stats"@,
        "fastx_filter"@,
        "fastx_mask"@,
        "fastx_revcomp"@,
        "fastx_subsample"@,
        "rereplicate"@,
        "search_exact"@,
        "shuffle"@,
        "sortbylength"@,
        "sortbysize"@,
        "uchime_denovo"@,
        "uchime_ref"@,
        "usearch_global"@,
    ]
}

/// The operations that compare sequences by similarity and so need a threshold.
pub open spec fn threshold_operations() -> Seq<Seq<char>> {
    seq![
        "allpairs_global"@,
        "cluster_fast"@,
        "cluster_size"@,
        "cluster_smallmem"@,
        "usearch_global"@,
    ]
}

/// `name` is an operation of the catalog.
pub open spec fn is_operation(name: Seq<char>) -> bool {
    operation_catalog().contains(name)
}

/// `name` is an operation that needs a similarity threshold.
pub open spec fn needs_threshold(name: Seq<char>) -> bool {
    threshold_operations().contains(name)
}

/// The line that shows one operation in a listing.
pub open spec fn listing_line(name: Seq<char>) -> Seq<char> {
    " - "@ + name
}

/// The catalog as shown to the user: one operation per line, in catalog order.
pub open spec fn catalog_listing() -> Seq<char> {
    join(operation_catalog().map_values(|name: Seq<char>| listing_line(name)), "\n"@)
}

/// The views of a vector of string slices.
pub open spec fn slice_texts(names: Seq<&'static str>) -> Seq<Seq<char>> {
    names.map_values(|name: &'static str| name@)
}

/// The operation names of the catalog.
pub fn operation_names() -> (names: Vec<&'static str>)
    ensures
        slice_texts(names@) == operation_catalog(),
{
    let names = vec![
        "allpairs_global",
        "cluster_fast",
        "cluster_size",
        "cluster_smallmem",
        "derep_fulllength",
        "derep_prefix",
        "fastq_chars",
        "fastq_convert",
        "fastq_eestats",
        "fastq_eestats2",
        "fastq_mergepairs",
        "fastq_stats",
        "fastx_filter",
        "fastx_mask",
        "fastx_revcomp",
        "fastx_subsample",
        "rereplicate",
        "search_exact",
        "shuffle",
        "sortbylength",
        "sortbysize",
        "uchime_denovo",
        "uchime_ref",
        "usearch_global",
    ];
    assert(slice_texts(names@) =~= operation_catalog());
    names
}

/// The names of the operations that need a similarity threshold.
pub fn threshold_operation_names() -> (names: Vec<&'static str>)
    ensures
        slice_texts(names@) == threshold_operations(),
{
    let names = vec![
        "allpairs_global",
        "cluster_fast",
        "cluster_size",
        "cluster_smallmem",
        "usearch_global",
    ];
    assert(slice_texts(names@) =~= threshold_operations());
    names
}

/// Looks `name` up in `names`.
fn is_listed(names: &Vec<&'static str>, name: &String) -> (found: bool)
    ensures
        found == slice_texts(names@).contains(name@),
{
    let mut i: usize = 0;
    while i < names.len()
        invariant
            i <= names.len(),
            forall|j: int| 0 <= j < i ==> slice_texts(names@)[j] != name@,
        decreases names.len() - i,
    {
        let candidate = String::from_str(names[i]);
        if candidate == *name {
            assert(slice_texts(names@)[i as int] == name@);
            return true;
        }
        i = i + 1;
    }
    false
}

/// Tells whether `name` is an operation of the catalog.
pub fn is_known_operation(name: &String) -> (known: bool)
    ensures
        known == is_operation(name@),
{
    let names = operation_names();
    is_listed(&names, name)
}

/// Tells whether the operation `name` needs a similarity threshold.
pub fn operation_needs_threshold(name: &String) -> (needed: bool)
    ensures
        needed == needs_threshold(name@),
{
    let names = threshold_operation_names();
    is_listed(&names, name)
}

/// Accepts `command` when it names an operation of the catalog, and hands it
/// back; any other name is refused with an error that carries the name.
pub fn validate_command(command: &String) -> (r: Result<&String, BatchError>)
    ensures
        is_operation(command@) ==> r == Ok::<&String, BatchError>(command),
        !is_operation(command@) ==> (r matches Err(e) && e@ == (BatchErrorView::UnknownOperation {
            name: command@,
        })),
{
    if is_known_operation(command) {
        Ok(command)
    } else {
        Err(BatchError::UnknownOperation { name: command.clone() })
    }
}

/// The catalog as shown to the user.
pub fn listing() -> (text: String)
    ensures
        text@ == catalog_listing(),
{
    let names = operation_names();
    let mut lines: Vec<String> = Vec::new();
    let mut i: usize = 0;
    while i < names.len()
        invariant
            i <= names.len(),
            slice_texts(names@) == operation_catalog(),
            lines.len() == i,
            forall|j: int| 0 <= j < i ==> lines[j]@ == listing_line(operation_catalog()[j]),
        decreases names.len() - i,
    {
        let mut line = String::from_str(" - ");
        line.append(names[i]);
        assert(slice_texts(names@)[i as int] == names[i as int]@);
        lines.push(line);
        i = i + 1;
    }
    assert(texts(lines@) =~= operation_catalog().map_values(
        |name: Seq<char>| listing_line(name),
    ));
    join_strings(&lines, "\n")
}

/// The listing shows every operation of the catalog by its name.
pub proof fn listing_shows_every_operation(name: Seq<char>)
    requires
        is_operation(name),
    ensures
        contains_text(catalog_listing(), listing_line(name)),
        contains_text(catalog_listing(), name),
{
    let catalog = operation_catalog();
    let lines = catalog.map_values(|name: Seq<char>| listing_line(name));
    let i = choose|i: int| 0 <= i < catalog.len() && catalog[i] == name;
    assert(lines[i] == listing_line(name));
    join_contains_part(lines, "\n"@, i);
    let line = listing_line(name);
    assert(line.subrange(" - "@.len() as int, line.len() as int) =~= name);
    assert(occurs_at(line, name, " - "@.len() as int));
    contains_text_transitive(catalog_listing(), line, name);
}

/// Each operation of the catalog comes before the next one in the order of a
/// dictionary.
proof fn neighbours_are_sorted(i: int)
    requires
        0 <= i < operation_catalog().len() - 1,
    ensures
        text_before(operation_catalog()[i], operation_catalog()[i + 1]),
{
    if i == 0 {
        reveal_strlit("allpairs_global");
        reveal_strlit("cluster_fast");
        text_before_at("allpairs_global"@, "cluster_fast"@, 0);
    } else if i == 1 {
        reveal_strlit("cluster_fast");
        reveal_strlit("cluster_size");
        text_before_at("cluster_fast"@, "cluster_size"@, 8);
    } else if i == 2 {
        reveal_strlit("cluster_size");
        reveal_strlit("cluster_smallmem");
        text_before_at("cluster_size"@, "cluster_smallmem"@, 9);
    } else if i == 3 {
        reveal_strlit("cluster_smallmem");
        reveal_strlit("derep_fulllength");
        text_before_at("cluster_smallmem"@, "derep_fulllength"@, 0);
    } else if i == 4 {
        reveal_strlit("derep_fulllength");
        reveal_strlit("derep_prefix");
        text_before_at("derep_fulllength"@, "derep_prefix"@, 6);
    } else if i == 5 {
        reveal_strlit("derep_prefix");
        reveal_strlit("fastq_chars");
        text_before_at("derep_prefix"@, "fastq_chars"@, 0);
    } else if i == 6 {
        reveal_strlit("fastq_chars");
        reveal_strlit("fastq_convert");
        text_before_at("fastq_chars"@, "fastq_convert"@, 7);
    } else if i == 7 {
        reveal_strlit("fastq_convert");
        reveal_strlit("fastq_eestats");
        text_before_at("fastq_convert"@, "fastq_eestats"@, 6);
    } else if i == 8 {
        reveal_strlit("fastq_eestats");
        reveal_strlit("fastq_eestats2");
        text_before_at("fastq_eestats"@, "fastq_eestats2"@, 13);
    } else if i == 9 {
        reveal_strlit("fastq_eestats2");
        reveal_strlit("fastq_mergepairs");
        text_before_at("fastq_eestats2"@, "fastq_mergepairs"@, 6);
    } else if i == 10 {
        reveal_strlit("fastq_mergepairs");
        reveal_strlit("fastq_stats");
        text_before_at("fastq_mergepairs"@, "fastq_stats"@, 6);
    } else if i == 11 {
        reveal_strlit("fastq_stats");
        reveal_strlit("fastx_filter");
        text_before_at("fastq_stats"@, "fastx_filter"@, 4);
    } else if i == 12 {
        reveal_strlit("fastx_filter");
        reveal_strlit("fastx_mask");
        text_before_at("fastx_filter"@, "fastx_mask"@, 6);
    } else if i == 13 {
        reveal_strlit("fastx_mask");
        reveal_strlit("fastx_revcomp");
        text_before_at("fastx_mask"@, "fastx_revcomp"@, 6);
    } else if i == 14 {
        reveal_strlit("fastx_revcomp");
        reveal_strlit("fastx_subsample");
        text_before_at("fastx_revcomp"@, "fastx_subsample"@, 6);
    } else if i == 15 {
        reveal_strlit("fastx_subsample");
        reveal_strlit("rereplicate");
        text_before_at("fastx_subsample"@, "rereplicate"@, 0);
    } else if i == 16 {
        reveal_strlit("rereplicate");
        reveal_strlit("search_exact");
        text_before_at("rereplicate"@, "search_exact"@, 0);
    } else if i == 17 {
        reveal_strlit("search_exact");
        reveal_strlit("shuffle");
        text_before_at("search_exact"@, "shuffle"@, 1);
    } else if i == 18 {
        reveal_strlit("shuffle");
        reveal_strlit("sortbylength");
        text_before_at("shuffle"@, "sortbylength"@, 1);
    } else if i == 19 {
        reveal_strlit("sortbylength");
        reveal_strlit("sortbysize");
        text_before_at("sortbylength"@, "sortbysize"@, 6);
    } else if i == 20 {
        reveal_strlit("sortbysize");
        reveal_strlit("uchime_denovo");
        text_before_at("sortbysize"@, "uchime_denovo"@, 0);
    } else if i == 21 {
        reveal_strlit("uchime_denovo");
        reveal_strlit("uchime_ref");
        text_before_at("uchime_denovo"@, "uchime_ref"@, 7);
    } else {
        reveal_strlit("uchime_ref");
        reveal_strlit("usearch_global");
        text_before_at("uchime_ref"@, "usearch_global"@, 1);
    }
}

/// The catalog is sorted: each operation comes before all that follow it in
/// the order of a dictionary, so none is listed twice.
pub proof fn catalog_is_sorted(i: int, j: int)
    requires
        0 <= i < j < operation_catalog().len(),
    ensures
        text_before(operation_catalog()[i], operation_catalog()[j]),
        operation_catalog()[i] != operation_catalog()[j],
    decreases j - i,
{
    neighbours_are_sorted(j - 1);
    if i < j - 1 {
        catalog_is_sorted(i, j - 1);
        text_before_transitive(
            operation_catalog()[i],
            operation_catalog()[j - 1],
            operation_catalog()[j],
        );
    }
    text_before_irreflexive(operation_catalog()[i]);
}

/// Every operation that needs a threshold is an operation of the catalog.
pub proof fn threshold_operations_are_known(name: Seq<char>)
    requires
        needs_threshold(name),
    ensures
        is_operation(name),
{
    let catalog = operation_catalog();
    assert(catalog[0] == "allpairs_global"@);
    assert(catalog[1] == "cluster_fast"@);
    assert(catalog[2] == "cluster_size"@);
    assert(catalog[3] == "cluster_smallmem"@);
    assert(catalog[23] == "usearch_global"@);
}

} // verus!
