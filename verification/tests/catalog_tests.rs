use run_vsearch::catalog::{
    is_known_operation, listing, operation_names, operation_needs_threshold,
    threshold_operation_names,
};
use run_vsearch::{validate_command, BatchError};

const LISTING: &str = " - allpairs_global\n - cluster_fast\n - cluster_size\n - cluster_smallmem\n - derep_fulllength\n - derep_prefix\n - fastq_chars\n - fastq_convert\n - fastq_eestats\n - fastq_eestats2\n - fastq_mergepairs\n - fastq_stats\n - fastx_filter\n - fastx_mask\n - fastx_revcomp\n - fastx_subsample\n - rereplicate\n - search_exact\n - shuffle\n - sortbylength\n - sortbysize\n - uchime_denovo\n - uchime_ref\n - usearch_global";

#[test]
fn catalog_holds_the_known_operations() {
    let names = operation_names();
    assert_eq!(names.len(), 24);
    assert_eq!(names[0], "allpairs_global");
    assert_eq!(names[9], "fastq_eestats2");
    assert_eq!(names[23], "usearch_global");
}

#[test]
fn catalog_is_sorted_without_repeats() {
    let names = operation_names();
    for pair in names.windows(2) {
        assert!(pair[0] < pair[1], "{} must come before {}", pair[0], pair[1]);
    }
}

#[test]
fn validate_command_accepts_every_catalog_name() {
    for name in operation_names().iter() {
        let command = name.to_string();
        assert_eq!(validate_command(&command), Ok(&command));
        assert!(is_known_operation(&command));
    }
}

#[test]
fn validate_command_refuses_every_other_name() {
    for name in ["blast", "", "Cluster_fast", "cluster_fast ", " cluster_fast", "cluster", "--cluster_fast", "cluster_fast\n", "fastq_eestats3"] {
        let command = name.to_string();
        assert_eq!(
            validate_command(&command),
            Err(BatchError::UnknownOperation { name: command.clone() })
        );
        assert!(!is_known_operation(&command));
    }
}

#[test]
fn unknown_operation_message_lists_the_catalog() {
    let command = "blast".to_string();
    let error = validate_command(&command).unwrap_err();
    let expected = format!("--command \"blast\" invalid, choose from:\n{}", LISTING);
    assert_eq!(error.message(), expected);
    for name in operation_names().iter() {
        assert!(error.message().contains(&format!("\n - {}", name)));
    }
}

#[test]
fn listing_shows_one_operation_per_line() {
    let text = listing();
    assert_eq!(text, LISTING);
    assert_eq!(text.lines().count(), 24);
}

#[test]
fn threshold_operations_are_the_five_similarity_searches() {
    let needing = threshold_operation_names();
    assert_eq!(
        needing,
        vec!["allpairs_global", "cluster_fast", "cluster_size", "cluster_smallmem", "usearch_global"]
    );
    for name in operation_names().iter() {
        let command = name.to_string();
        assert_eq!(operation_needs_threshold(&command), needing.contains(name));
    }
    assert!(!operation_needs_threshold(&"blast".to_string()));
}
