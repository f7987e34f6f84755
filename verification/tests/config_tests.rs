use run_vsearch::config::{DEFAULT_THREADS, MAX_THREADS};
use run_vsearch::{get_args, BatchError, Config, RawArguments, Setting};

fn raw() -> RawArguments {
    RawArguments {
        command: "search_exact".to_string(),
        query: vec!["reads".to_string()],
        centroids: None,
        db_file: None,
        out_dir: None,
        id_value: None,
        fastq_ascii: None,
        bin_dir: None,
        num_threads: None,
    }
}

#[test]
fn get_args_fills_in_the_defaults() {
    let config = get_args(raw(), "/work").unwrap();
    assert_eq!(
        config,
        Config {
            command: "search_exact".to_string(),
            query: vec!["reads".to_string()],
            centroids: None,
            db_file: None,
            id_value: None,
            fastq_ascii: None,
            bin_dir: None,
            num_threads: Some(12),
            out_dir: "/work/vsearch-out".to_string(),
        }
    );
    assert_eq!(DEFAULT_THREADS, 12);
    assert_eq!(MAX_THREADS, 63);
}

#[test]
fn get_args_keeps_what_was_given() {
    let mut given = raw();
    given.command = "cluster_fast".to_string();
    given.query = vec!["a.fa".to_string(), "dir".to_string()];
    given.centroids = Some("centroids.fa".to_string());
    given.db_file = Some("db.fa".to_string());
    given.out_dir = Some("results".to_string());
    given.id_value = Some(" 0.97 ".to_string());
    given.fastq_ascii = Some("64".to_string());
    given.bin_dir = Some("/opt/bin".to_string());
    given.num_threads = Some(" 8\n".to_string());
    let config = get_args(given, "/work").unwrap();
    assert_eq!(
        config,
        Config {
            command: "cluster_fast".to_string(),
            query: vec!["a.fa".to_string(), "dir".to_string()],
            centroids: Some("centroids.fa".to_string()),
            db_file: Some("db.fa".to_string()),
            id_value: Some("0.97".to_string()),
            fastq_ascii: Some(64),
            bin_dir: Some("/opt/bin".to_string()),
            num_threads: Some(8),
            out_dir: "results".to_string(),
        }
    );
}

#[test]
fn get_args_accepts_thread_counts_from_1_to_63() {
    for (text, threads) in [("1", 1u32), ("12", 12), ("63", 63), ("+5", 5), ("007", 7)] {
        let mut given = raw();
        given.num_threads = Some(text.to_string());
        assert_eq!(get_args(given, "/work").unwrap().num_threads, Some(threads));
    }
}

#[test]
fn get_args_refuses_other_thread_counts() {
    for text in ["0", "64", "100", "-1", "", " ", "abc", "12x", "1.5", "4294967296"] {
        let mut given = raw();
        given.num_threads = Some(text.to_string());
        assert_eq!(
            get_args(given, "/work"),
            Err(BatchError::ConfigError { setting: Setting::ThreadCount }),
            "{:?}",
            text
        );
    }
}

#[test]
fn get_args_drops_a_quality_offset_that_is_no_number() {
    for (text, offset) in [("33", Some(33u32)), (" 64 ", Some(64)), ("x", None), ("", None), ("-3", None)] {
        let mut given = raw();
        given.fastq_ascii = Some(text.to_string());
        assert_eq!(get_args(given, "/work").unwrap().fastq_ascii, offset);
    }
}

#[test]
fn get_args_places_the_default_output_directory_under_the_working_directory() {
    for (cwd, out_dir) in [
        ("/work", "/work/vsearch-out"),
        ("/work/", "/work/vsearch-out"),
        ("/", "/vsearch-out"),
        ("", "vsearch-out"),
        ("rel/dir", "rel/dir/vsearch-out"),
    ] {
        assert_eq!(get_args(raw(), cwd).unwrap().out_dir, out_dir);
    }
}

#[test]
fn get_args_leaves_the_threshold_to_the_builder() {
    let mut given = raw();
    given.id_value = Some("7".to_string());
    assert_eq!(get_args(given, "/work").unwrap().id_value, Some("7".to_string()));
}
