use alice_registry::registry::{
    summarize_diff, summarize_pull, summarize_push, summarize_search, Stats,
};

#[test]
fn push_reports_hash_derived_version_and_digest() {
    let out = summarize_push("alice/runtime", Some("v1.2.0".to_string()), None, None);
    assert_eq!(out.tag, "v1.2.0");
    assert_eq!(out.format, "sdf-binary");
    assert_eq!(out.size_bytes, 1_048_576);
    assert_eq!(out.compressed_bytes, 367_001);
    assert_eq!(out.version, "v1.49.91");
    assert_eq!(out.sha256, "8e198257295583fdcadc771b3c4f46e7");
}

#[test]
fn push_keeps_given_format_and_size() {
    let out = summarize_push("r", None, Some("wasm".to_string()), Some(1_000_000));
    assert_eq!(out.tag, "latest");
    assert_eq!(out.format, "wasm");
    assert_eq!(out.size_bytes, 1_000_000);
    assert_eq!(out.compressed_bytes, 350_000);
    assert_eq!(out.sha256.len(), 32);
}

#[test]
fn pull_defaults_to_latest() {
    let out = summarize_pull("alice/runtime", None, None);
    assert_eq!(out.tag, "latest");
    assert_eq!(out.version, "v1.81.55");
    assert_eq!(out.format, "sdf-binary");
    assert_eq!(out.size_bytes, 8_920_905);
    assert_eq!(out.download_url, "https://cdn.alice-registry.io/alice/runtime/download");
}

#[test]
fn pull_reports_pushed_version() {
    let pushed = summarize_push("alice/runtime", Some("v1.2.0".to_string()), None, None);
    let pulled = summarize_pull("alice/runtime", Some("v1.2.0".to_string()), None);
    assert_eq!(pushed.version, pulled.version);
    assert_eq!(pulled.size_bytes, 770_173);
}

#[test]
fn pull_keeps_explicit_version() {
    let out = summarize_pull("alice/runtime", Some("v1.2.0".to_string()), Some("v9".to_string()));
    assert_eq!(out.version, "v9");
}

#[test]
fn diff_counts_from_hash() {
    let out = summarize_diff("alice/runtime", "v1.1.0", "v1.2.0");
    assert_eq!(out.added_nodes, 45);
    assert_eq!(out.removed_nodes, 9);
    assert_eq!(out.modified_nodes, 15);
    assert_eq!(out.diff_size_bytes, 8832);
    assert_eq!(out.similarity_half_percent, 131);
}

#[test]
fn search_lists_hits_named_after_first_word() {
    let out = summarize_search("alice runtime", None, None);
    assert_eq!(out.total_results, 5);
    assert_eq!(out.results.len(), 5);
    assert_eq!(out.results[0].repo, "alice/alice-model-8547");
    assert_eq!(out.results[0].downloads, 315);
    assert_eq!(out.results[2].repo, "alice/alice-model-8549");
    assert_eq!(out.results[1].tag, "latest");
    assert_eq!(out.results[1].description, "SDF model for alice runtime");
    assert_eq!(out.results[1].format, "sdf-binary");
}

#[test]
fn search_of_blank_query_uses_sdf() {
    let out = summarize_search("  \t ", Some("helm".to_string()), None);
    assert_eq!(out.total_results, 8);
    assert_eq!(out.results[0].repo, "alice/sdf-model-1589");
    assert_eq!(out.results[0].downloads, 36948);
    assert_eq!(out.results[0].format, "helm");
}

#[test]
fn search_lists_at_most_twenty() {
    let out = summarize_search("x", None, Some(50));
    assert_eq!(out.total_results, 21);
    assert_eq!(out.results.len(), 20);
    assert_eq!(out.results[0].repo, "alice/x-model-8267");
}

#[test]
fn search_reports_at_least_one() {
    let out = summarize_search("registry search", None, Some(3));
    assert_eq!(out.total_results, 1);
    assert_eq!(out.results[0].repo, "alice/registry-model-4153");
    let one = summarize_search("anything", None, Some(1));
    assert_eq!(one.total_results, 1);
}

#[test]
fn stats_count_operations() {
    let mut st = Stats::new();
    st.record_push();
    st.record_pull();
    st.record_search();
    st.record_diff();
    assert_eq!(st.total_pushes, 1);
    assert_eq!(st.models_stored, 1);
    assert_eq!(st.total_pulls, 2);
    assert_eq!(st.total_diffs, 1);
    assert_eq!(st.total_ops(), 4);
}

#[test]
fn stats_models_stored_tracks_pushes() {
    let mut st = Stats::new();
    for i in 0..30u32 {
        match i % 4 {
            0 => st.record_push(),
            1 => st.record_pull(),
            2 => st.record_search(),
            _ => st.record_diff(),
        }
        assert_eq!(st.models_stored, st.total_pushes);
    }
    assert_eq!(st.total_pushes, 8);
    assert_eq!(st.total_pulls, 15);
    assert_eq!(st.total_diffs, 7);
    assert_eq!(st.total_ops(), 30);
}
