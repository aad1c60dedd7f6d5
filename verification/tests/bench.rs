use vicia_browser::bench::aggregate::{
    aggregate_pair, checked_checksum, expected_checksum, AggregateError, AggregateProgram,
    QueryRows,
};
use vicia_browser::bench::aggregate_retention::{
    accepted_iterations, admit_iteration, check_fixture_log, complete_measurement, endpoint_order,
    label_endpoints, AggregateMismatch, FileState, MemoryCourse, MemoryState,
};
use vicia_browser::bench::checkpoint_construction::{admit_sample, pending_sizes, phase_memory};
use vicia_browser::bench::current_projection::{
    added_fact, check_checkpoint_refresh, check_incremental, check_stage, measure_semantics,
    rebuild_is_deterministic, semantic_command, AggregateStage, ProjectionError, RowValue,
    SemanticObservations, SemanticStep,
};
use vicia_browser::bench::current_projection_tail::{
    admitted as tail_admitted, candidate_order, check_projections, common_identity, complete_probe,
    ensure_expected, expected_pair, image_identity, probe, probe_gates, probe_order_names,
    probe_series, rotated_probe_indices, validate_fixture_metadata, validate_trial_set,
    CandidateKind, FixtureReceipt, ImageIdentity, ProjectionContent, TailError, TimedAggregate,
    Trial, EXPECTED_FILL_PERCENT, FULL_TRIALS, PROBE_COUNT, TEMPORAL_AFTER, TEMPORAL_BEFORE,
    TEMPORAL_BOUNDARY,
};
use vicia_browser::bench::current_reader::{
    check_entity_rows, check_ref_rows, selected_pair, ReaderError,
};
use vicia_browser::bench::fixture::{
    graph_command, isolation_command, projection_command, reference_command, source_id, target_id,
    BatchWalk, NumberedGraph,
};
use vicia_browser::bench::leaf_read_path::{
    aggregate_numbers, point_query, point_target, validate_aggregate, validate_point, LeafError,
};
use vicia_browser::bench::pending_isolation::{
    arithmetic_sum, batch_command, check_base_log, check_prepared_log, check_repetition,
    check_variant, expected, needs_preparation, variant_memory, variant_specs, workload_peak,
    PendingKind, BASE_FACTS, SELECTED_CONTROL_FACTS,
};
use vicia_browser::bench::process_memory::{
    adjoining_peak_bytes, current_rss_bytes, growth, is_smaps_header, memory_breakdown,
    peak_rss_bytes, process_memory, required_status_bytes, smaps_kib_value, statm_rss_bytes,
    MemoryBreakdown, ProcessMemory, StatusError,
};
use vicia_browser::bench::profile::Profile;
use vicia_browser::bench::projection_routing::{
    accept_trial, admitted as routing_admitted, check_fixture, expected_pair as routing_pair,
    judge, query_rss_delta, series_pair, ProjectionReadDiagnostics, RoutingError,
};
use vicia_browser::bench::provenance::{
    child_failure, command_text, cpu_model, fixture_format_version, git_source_commit,
    sha256_digest, tracked_clean, ChildKind, CommandOutcome, FailureRule,
};
use vicia_browser::bench::scan::{chars_of, find_word, parse_number, split_lines, NumberError};
use vicia_browser::bench::statistics::{
    layout_percentile, nearest_rank, open_rank, spread_percentile, summarize, Summary,
};
use vicia_browser::bench::storage_layout::{
    baseline_index, combine_checkpoint_samples, combine_query_samples, empty_gates, fill_index,
    fills, index_unused, judge_candidate, rotated_orders, select_fill, CheckpointSample,
    IndexSpace, JudgedFill, LayoutError, QuerySample, SampleTable,
};
use vicia_browser::text::fingerprint_text;

#[test]
fn expected_checksum_matches_fixture_contract() {
    assert_eq!(expected_checksum(1_000_000), 499_999_500_000);
}

#[test]
fn checksums_cover_small_and_huge_graphs() {
    assert_eq!(expected_checksum(0), 0);
    assert_eq!(expected_checksum(1), 0);
    assert_eq!(expected_checksum(5), 10);
    assert_eq!(checked_checksum(5), Some(10));
    assert_eq!(checked_checksum(u64::MAX), None);
    assert_eq!(arithmetic_sum(BASE_FACTS), 499_999_500_000);
}

#[test]
fn full_profile_rotates_endpoint_order() {
    let orders = (0..Profile::Full.pairs())
        .map(endpoint_order)
        .collect::<Vec<_>>();
    assert_eq!(orders[0], [1, 20]);
    assert_eq!(orders[1], [20, 1]);
    assert_eq!(orders.len(), 5);
}

#[test]
fn endpoints_are_labelled_whatever_ran_first() {
    assert_eq!(label_endpoints(0, "first", "second"), ("first", "second"));
    assert_eq!(label_endpoints(1, "first", "second"), ("second", "first"));
    assert!(accepted_iterations(1) && accepted_iterations(20) && !accepted_iterations(2));
}

fn breakdown(anonymous: u64, file: u64, heap: u64, database: u64) -> MemoryBreakdown {
    MemoryBreakdown {
        anonymous_rss_bytes: anonymous,
        file_backed_rss_bytes: file,
        heap_mapping_rss_bytes: heap,
        database_mapped_rss_bytes: database,
    }
}

#[test]
fn memory_breakdown_subtraction_saturates_each_owner() {
    let current = MemoryBreakdown {
        anonymous_rss_bytes: 10,
        file_backed_rss_bytes: 20,
        heap_mapping_rss_bytes: 5,
        database_mapped_rss_bytes: 1,
    };
    let baseline = MemoryBreakdown {
        anonymous_rss_bytes: 4,
        file_backed_rss_bytes: 30,
        heap_mapping_rss_bytes: 2,
        database_mapped_rss_bytes: 3,
    };
    let delta = current.saturating_sub(baseline);
    assert_eq!(delta.anonymous_rss_bytes, 6);
    assert_eq!(delta.file_backed_rss_bytes, 0);
    assert_eq!(delta.heap_mapping_rss_bytes, 3);
    assert_eq!(delta.database_mapped_rss_bytes, 0);
}

#[test]
fn smaps_values_require_exact_field_prefix() {
    assert_eq!(smaps_kib_value("Rss: 12 kB", "Rss:"), Some(12 * 1024));
    assert_eq!(smaps_kib_value("AnonHugePages: 12 kB", "Rss:"), None);
}

#[test]
fn status_fields_are_read_in_bytes() {
    let status = "Name:\tx\nVmHWM:\t  300 kB\r\nVmRSS:\t  200 kB\n";
    assert_eq!(current_rss_bytes(status), Some(204_800));
    assert_eq!(peak_rss_bytes(status), Some(307_200));
    assert_eq!(required_status_bytes(status, "VmRSS:"), Ok(204_800));
    assert_eq!(adjoining_peak_bytes("VmHWM:7 kB"), Ok(7_168));
    assert_eq!(StatusError::FieldMissing.message("VmRSS"), "VmRSS missing");
    assert_eq!(StatusError::ValueMissing.message("VmRSS:"), "VmRSS: value missing");
    assert_eq!(
        StatusError::Number(NumberError::Empty).message("VmRSS"),
        "cannot parse integer from empty string"
    );
    assert_eq!(adjoining_peak_bytes("VmHWM:"), Err(StatusError::ValueMissing));
    assert_eq!(adjoining_peak_bytes(""), Err(StatusError::FieldMissing));
    assert_eq!(statm_rss_bytes("100 25 3"), Ok(102_400));
    assert_eq!(statm_rss_bytes("100"), Err(StatusError::ValueMissing));
    assert_eq!(
        StatusError::ValueMissing.routing_resident_message(),
        "missing resident page count"
    );
    assert_eq!(StatusError::FieldMissing.routing_peak_message(), "missing VmHWM");
    assert_eq!(StatusError::ValueMissing.routing_peak_message(), "missing VmHWM value");
    assert_eq!(
        StatusError::Number(NumberError::InvalidDigit).routing_peak_message(),
        "invalid digit found in string"
    );
    assert_eq!((growth(9, 4), growth(4, 9)), (5, 0));
    assert_eq!(fingerprint_text(0xAB12), "000000000000ab12");
    assert_eq!(
        process_memory(status),
        Ok(ProcessMemory { rss_bytes: 204_800, hwm_bytes: 307_200 })
    );
    assert_eq!(
        process_memory("VmRSS: 1 kB"),
        Err(("VmHWM:", StatusError::FieldMissing))
    );
    assert_eq!(
        process_memory("VmRSS: one kB"),
        Err(("VmRSS:", StatusError::Number(NumberError::InvalidDigit)))
    );
    assert_eq!(current_rss_bytes("VmRSS: 99999999999999999999 kB"), None);
    assert_eq!(current_rss_bytes("VmRSS: 18446744073709551615 kB"), None);
    assert_eq!(
        required_status_bytes("VmRSS: 18446744073709551615 kB", "VmRSS:"),
        Ok(u64::MAX)
    );
}

#[test]
fn mappings_are_charged_to_their_owners() {
    assert!(is_smaps_header("55d0c0a0-55d0c0b0 r--p 00000000 fe:00 12 /bin/x"));
    assert!(!is_smaps_header("Rss: 12 kB"));
    assert!(!is_smaps_header("55d0c0a0 r--p"));
    assert!(!is_smaps_header(""));
    let smaps = "55d0c0a0-55d0c0b0 rw-p 00000000 00:00 0 [heap]\n\
                 Rss: 10 kB\nAnonymous: 8 kB\n\
                 7f00aa00-7f00bb00 r--s 00000000 fe:00 7 /data/x.graph\n\
                 Rss: 5 kB\nAnonymous: 0 kB\n\
                 7ffe0000-7ffe1000 rw-p 00000000 00:00 0\n\
                 Rss: 1 kB\nAnonymous: 1 kB\n";
    assert_eq!(
        memory_breakdown(smaps, "/data/x.graph"),
        breakdown(9 * 1024, 7 * 1024, 10 * 1024, 5 * 1024)
    );
    assert_eq!(
        memory_breakdown(smaps, "/data/other.graph").database_mapped_rss_bytes,
        0
    );
}

#[test]
fn words_lines_and_numbers_are_read() {
    let word = |text: &str, n: usize| {
        find_word(&chars_of(text), n).map(|word| word.iter().collect::<String>())
    };
    assert_eq!(word("  a\u{2003}bc\td ", 1), Some("bc".to_owned()));
    assert_eq!(word("  a bc", 2), None);
    let lines: Vec<String> = split_lines(&chars_of("foo\nbar\n\r\nbaz\r"))
        .iter()
        .map(|line| line.iter().collect())
        .collect();
    assert_eq!(lines, vec!["foo", "bar", "", "baz\r"]);
    assert_eq!(parse_number(&chars_of("+42")), Ok(42));
    assert_eq!(parse_number(&chars_of("")), Err(NumberError::Empty));
    assert_eq!(parse_number(&chars_of("+")), Err(NumberError::InvalidDigit));
    assert_eq!(parse_number(&chars_of("-1")), Err(NumberError::InvalidDigit));
    assert_eq!(parse_number(&chars_of("18446744073709551615")), Ok(u64::MAX));
    assert_eq!(
        parse_number(&chars_of("18446744073709551616")),
        Err(NumberError::TooLarge)
    );
    for text in ["", "7", "x", "+9", "99999999999999999999x", "1 2"] {
        assert_eq!(
            parse_number(&chars_of(text)).map_err(|error| error.message().to_owned()),
            text.parse::<u64>().map_err(|error| error.to_string())
        );
    }
}

#[test]
fn source_commit_has_full_git_identity() {
    let commit = git_source_commit("0123456789abcdef0123456789ABCDEF01234567\n").unwrap();
    assert_eq!(commit.len(), 40);
    assert!(commit.bytes().all(|byte| byte.is_ascii_hexdigit()));
}

fn ended(success: bool, stdout: &str) -> CommandOutcome {
    let status = if success { "exit status: 0" } else { "exit status: 1" };
    CommandOutcome {
        success,
        status: status.to_owned(),
        stdout: Ok(stdout.to_owned()),
        stderr: "git: 'not-a-real-subcommand' is not a git command\n".to_owned(),
    }
}

#[test]
fn provenance_command_rejects_nonzero_exit() {
    assert!(
        command_text(FailureRule::ReportErrors, "git", &ended(false, "")).is_err(),
        "failed provenance commands must not produce receipt text"
    );
}

#[test]
fn failed_commands_are_reported_by_rule() {
    let failed = ended(false, " abc\n");
    assert_eq!(
        command_text(FailureRule::ReportErrors, "git", &failed),
        Err("git failed: git: 'not-a-real-subcommand' is not a git command".to_owned())
    );
    assert_eq!(
        command_text(FailureRule::ReportStatus, "git", &failed),
        Err("git failed with exit status: 1".to_owned())
    );
    assert_eq!(
        command_text(FailureRule::ReportCommand, "git", &failed),
        Err("git command failed".to_owned())
    );
    assert_eq!(command_text(FailureRule::Ignore, "git", &failed), Ok("abc".to_owned()));
    let unreadable = CommandOutcome { stdout: Err("invalid utf-8".to_owned()), ..ended(true, "") };
    assert_eq!(
        command_text(FailureRule::ReportStatus, "git", &unreadable),
        Err("invalid utf-8".to_owned())
    );
    assert_eq!(child_failure(ChildKind::Measurement, " x \n"), "measurement child failed: x");
    assert_eq!(child_failure(ChildKind::Benchmark, " x \n"), "benchmark child failed: x");
    assert_eq!(child_failure(ChildKind::Plain, " x \n"), "child failed:  x \n");
}

#[test]
fn provenance_is_read_off_command_output() {
    assert!(git_source_commit("not a commit").is_err());
    assert!(git_source_commit(&"g".repeat(40)).is_err());
    assert_eq!(
        git_source_commit("").unwrap_err().message(),
        "git rev-parse returned an invalid commit id"
    );
    assert_eq!(
        command_text(FailureRule::ReportStatus, "hostname", &ended(true, "  host \n")),
        Ok("host".to_owned())
    );
    assert!(tracked_clean(" \n"));
    assert!(!tracked_clean(" M src/lib.rs\n"));
    assert_eq!(sha256_digest("ab12  /x.graph\n"), Some("ab12".to_owned()));
    assert_eq!(sha256_digest(" \n"), None);
    assert_eq!(
        cpu_model("processor\t: 0\nmodel name\t: Fast CPU\n"),
        Some("Fast CPU".to_owned())
    );
    assert_eq!(cpu_model("processor\t: 0\n"), None);
    assert_eq!(fixture_format_version(b"MGRF\x0c\x00\x01\x00"), 65_548);
}

#[test]
fn profiles_have_their_sizes() {
    for profile in [Profile::Smoke, Profile::Full] {
        assert_eq!(Profile::parse(profile.name()), Ok(profile));
    }
    assert_eq!(
        Profile::parse("huge").unwrap_err().message(),
        "profile must be smoke or full"
    );
    assert_eq!(Profile::Smoke.facts(), 10_000);
    assert_eq!(Profile::Full.base_facts(), 1_000_000);
    assert_eq!(Profile::Full.repetitions(), 20);
    assert_eq!(Profile::Smoke.tail_trials(), 6);
    assert_eq!(Profile::Full.routing_trials(), 10);
    assert!(Profile::Full.admission_eligible() && !Profile::Smoke.admission_eligible());
}

#[test]
fn batches_write_every_value_once() {
    let mut walk = BatchWalk::new(0, 2_500);
    let mut seen = Vec::new();
    while let Some(batch) = walk.next_batch() {
        seen.push(batch);
    }
    assert_eq!(seen, vec![(0, 1_000), (1_000, 2_000), (2_000, 2_500)]);
    assert_eq!(BatchWalk::new(0, 0).next_batch(), None);
    assert_eq!(
        BatchWalk::new(u64::MAX - 5, 100).next_batch(),
        Some((u64::MAX - 5, u64::MAX))
    );
}

#[test]
fn fixture_commands_are_spelled_out() {
    assert_eq!(
        graph_command(NumberedGraph::Retention, 9, 11),
        "(transact [[:retention/e9 :retention/value 9][:retention/e10 :retention/value 10]])"
    );
    assert_eq!(
        graph_command(NumberedGraph::CheckpointBase, 0, 1),
        "(transact [[:checkpoint/e0 :checkpoint/value 0]])"
    );
    assert_eq!(
        graph_command(NumberedGraph::CheckpointPending, 0, 1),
        "(transact [[:checkpoint/p0 :checkpoint/pending 0]])"
    );
    assert_eq!(
        graph_command(NumberedGraph::Leaf, 3, 4),
        "(transact [[:leaf/e3 :leaf/value 3]])"
    );
    assert_eq!(graph_command(NumberedGraph::Layout, 4, 4), "(transact [])");
    assert_eq!(
        isolation_command("base", ":bench/selected", 0, 1),
        "(transact [[:iso/base0 :bench/selected 0]])"
    );
    assert_eq!(
        projection_command(0, 1),
        "(transact [[#uuid \"00000000-0000-0000-0000-000000000001\" :projection/value 0]])"
    );
    assert_eq!(
        reference_command(1, 2),
        "(transact [[#uuid \"00000000-0000-0000-0000-000000000002\" :bench/ref #uuid \
         \"80000000-0000-0000-0000-000000000002\"]])"
    );
    assert_eq!(source_id(4), 5);
    assert_eq!(target_id(4), (1_u128 << 127) | 5);
}

#[test]
fn aggregates_are_taken_off_results() {
    let rows = |cells: Vec<Option<i64>>| QueryRows::Rows(vec![cells]);
    let program = AggregateProgram::Retention;
    assert_eq!(aggregate_pair(program, &rows(vec![Some(3), Some(-4)])), Ok((3, -4)));
    assert_eq!(
        aggregate_pair(program, &QueryRows::NotAQuery),
        Err(AggregateError::NotAQuery)
    );
    assert_eq!(
        aggregate_pair(program, &QueryRows::Rows(vec![])),
        Err(AggregateError::NoRow)
    );
    assert_eq!(
        aggregate_pair(program, &rows(vec![None, Some(1)])),
        Err(AggregateError::CountMissing)
    );
    assert_eq!(
        aggregate_pair(program, &rows(vec![Some(-1)])),
        Err(AggregateError::ChecksumMissing)
    );
    assert_eq!(
        aggregate_pair(AggregateProgram::Layout, &rows(vec![Some(-1)])),
        Err(AggregateError::CountNegative)
    );
    assert_eq!(
        aggregate_pair(AggregateProgram::Routing, &rows(vec![Some(1), Some(2), Some(3)])),
        Err(AggregateError::UnexpectedValues)
    );
    assert_eq!(
        aggregate_pair(AggregateProgram::Routing, &rows(vec![Some(1), Some(2)])),
        Ok((1, 2))
    );
    assert_eq!(
        AggregateError::ChecksumMissing.message(AggregateProgram::Isolation),
        "aggregate sum missing"
    );
    assert_eq!(
        AggregateError::NoRow.message(AggregateProgram::Routing),
        "aggregate result is empty"
    );
}

#[test]
fn retention_is_derived_from_the_course() {
    assert_eq!(admit_iteration(5, 3, (5, 10)), Ok(()));
    assert_eq!(
        admit_iteration(5, 3, (5, 11)),
        Err(AggregateMismatch { iteration: 3 })
    );
    assert_eq!(
        AggregateMismatch { iteration: 3 }.message(),
        "aggregate correctness mismatch at iteration 3"
    );
    assert!(check_fixture_log(false).is_ok());
    assert_eq!(
        check_fixture_log(true).unwrap_err().message(),
        "checkpointed retention fixture left a WAL sidecar"
    );
    let state = |rss_bytes: u64, heap: u64| MemoryState {
        rss_bytes,
        breakdown: breakdown(heap, 0, heap, 0),
    };
    let file = FileState { tx_count: 7, graph_bytes: 8192, wal_exists: false };
    let course = MemoryCourse {
        baseline: state(100, 10),
        before_trim: state(180, 50),
        after_live_trim: state(130, 30),
        after_drop_trim: state(90, 5),
    };
    let measurement = complete_measurement(5, (file, file), course, vec![1.5, 2.5], 200, (true, true));
    assert_eq!(measurement.iterations, 2);
    assert_eq!((measurement.count, measurement.checksum), (5, 10));
    assert_eq!(measurement.retained.retained_delta_before_trim_bytes, 80);
    assert_eq!(measurement.retained.retained_delta_after_live_trim_bytes, 30);
    assert_eq!(measurement.retained.live_database_rss_bytes, 40);
    assert_eq!(
        measurement.retained.breakdown_delta_before_trim,
        breakdown(40, 0, 40, 0)
    );
}

#[test]
fn short_phase_has_hwm_backed_peak() {
    let baseline = process_memory("VmHWM: 120 kB\nVmRSS: 100 kB\n").unwrap();
    let post = process_memory("VmHWM: 121 kB\nVmRSS: 100 kB\n").unwrap();
    let phase = phase_memory(baseline, baseline.rss_bytes, post, 0);
    assert!(phase.post_hwm_bytes >= phase.baseline_hwm_bytes);
    assert!(phase.conservative_peak_rss_bytes >= phase.post_hwm_bytes);
    assert!(phase.sampled_peak_rss_bytes >= phase.baseline_rss_bytes);
}

#[test]
fn phase_peaks_are_conservative() {
    assert_eq!(pending_sizes(), [1, 10, 100, 1_000]);
    let phase = phase_memory(
        ProcessMemory { rss_bytes: 100, hwm_bytes: 120 },
        110,
        ProcessMemory { rss_bytes: 105, hwm_bytes: 150 },
        4,
    );
    assert_eq!(phase.conservative_peak_rss_bytes, 150);
    assert_eq!(phase.conservative_delta_rss_bytes, 50);
    assert_eq!(phase.hwm_growth_bytes, 30);
    assert_eq!(phase.sampler_observations, 4);
    assert!(admit_sample(10, 10).is_ok());
    assert_eq!(admit_sample(9, 10).unwrap_err().message(), "base count mismatch");
}

#[test]
fn leaf_reads_are_validated() {
    assert_eq!(point_target(10_000), 5_000);
    assert_eq!(
        point_query(5_000),
        "(query [:find ?v :where [:leaf/e5000 :leaf/value ?v]])"
    );
    let rows = QueryRows::Rows(vec![vec![Some(5)]]);
    assert_eq!(validate_point(&rows, 5), Ok(()));
    assert_eq!(validate_point(&rows, 6), Err(LeafError::PointMismatch));
    assert_eq!(validate_point(&rows, u64::MAX), Err(LeafError::ExpectedTooLarge));
    assert_eq!(
        validate_point(&QueryRows::NotAQuery, 5),
        Err(LeafError::NotAQuery)
    );
    assert_eq!(
        validate_point(&QueryRows::Rows(vec![vec![]]), 5),
        Err(LeafError::NoInteger)
    );
    assert_eq!(validate_aggregate(5, (5, 10)), Ok(()));
    assert_eq!(validate_aggregate(5, (4, 10)), Err(LeafError::AggregateMismatch));
    assert_eq!(aggregate_numbers((5, 10), 100, 150).workload_delta_rss_bytes, 50);
}

#[test]
fn structured_reads_are_checked() {
    let (source, target) = selected_pair(10_000);
    assert_eq!(source, 5_001);
    assert_eq!(target, (1_u128 << 127) | 5_001);
    assert_eq!(check_entity_rows(&vec![Some(target)], target), Ok(()));
    assert_eq!(
        check_entity_rows(&vec![None], target),
        Err(ReaderError::EntityMismatch)
    );
    assert_eq!(
        check_entity_rows(&vec![Some(target), Some(target)], target),
        Err(ReaderError::EntityMismatch)
    );
    assert_eq!(check_ref_rows(&vec![source], source), Ok(()));
    assert_eq!(check_ref_rows(&vec![], source), Err(ReaderError::RefMismatch));
}

#[test]
fn projection_stages_are_checked() {
    assert_eq!(check_stage(AggregateStage::Baseline, 5, (5, 10)), Ok(()));
    assert_eq!(
        check_stage(AggregateStage::Baseline, 5, (5, 9)),
        Err(ProjectionError::BaselineMismatch)
    );
    assert_eq!(
        check_stage(AggregateStage::Projected, 5, (6, 10)),
        Err(ProjectionError::ProjectedMismatch)
    );
    let added = added_fact(5).unwrap();
    assert_eq!((added.value, added.count, added.checksum), (5, 6, 15));
    assert_eq!(
        added.command,
        "(transact {:valid-from \"2000-01-01\" :valid-to \"2100-01-01\"} \
         [[#uuid \"00000000-0000-0000-0000-000000000006\" :projection/value 5]])"
    );
    assert_eq!(check_incremental(&added, (6, 15)), Ok(()));
    assert_eq!(
        check_incremental(&added, (6, 16)),
        Err(ProjectionError::IncrementalMismatch)
    );
    assert_eq!(
        added_fact(1 << 63).unwrap_err(),
        ProjectionError::TooManyFacts
    );
    assert!(rebuild_is_deterministic((7, (6, 15)), (7, (6, 15))));
    assert!(!rebuild_is_deterministic((7, (6, 15)), (8, (6, 15))));
    assert_eq!(check_checkpoint_refresh(3, 3), Ok(()));
    assert_eq!(
        check_checkpoint_refresh(3, 4),
        Err(ProjectionError::CheckpointChangedContent)
    );
}

fn id(n: u128) -> String {
    format!("00000000-0000-0000-0000-0000000000{n:02x}")
}

#[test]
fn semantic_commands_are_spelled_out() {
    assert_eq!(
        semantic_command(SemanticStep::EveryType),
        format!(
            "(transact {{:valid-from \"2020-01-01\" :valid-to \"2030-01-01\"}} [\
             [#uuid \"{}\" :projection/value \"vetch\"]\
             [#uuid \"{}\" :projection/value 42]\
             [#uuid \"{}\" :projection/value 12.5]\
             [#uuid \"{}\" :projection/value true]\
             [#uuid \"{}\" :projection/value #uuid \"{}\"]\
             [#uuid \"{}\" :projection/value :state/ready]\
             [#uuid \"{}\" :projection/value nil]])",
            id(1),
            id(2),
            id(3),
            id(4),
            id(5),
            id(10),
            id(6),
            id(7),
        )
    );
    assert_eq!(
        semantic_command(SemanticStep::SecondWindow),
        format!(
            "(transact {{:valid-from \"2024-01-01\" :valid-to \"2030-01-01\"}} \
             [[#uuid \"{}\" :projection/value :state/overlap]])",
            id(9)
        )
    );
    assert_eq!(
        semantic_command(SemanticStep::ScopedRetraction),
        format!(
            "(retract [[#uuid \"{}\" :projection/value 42 \
             {{:valid-from \"2020-01-01\" :valid-to \"2030-01-01\"}}]])",
            id(2)
        )
    );
    assert_eq!(
        semantic_command(SemanticStep::UnscopedRetraction),
        format!("(retract [[#uuid \"{}\" :projection/value \"vetch\"]])", id(1))
    );
    assert_eq!(
        semantic_command(SemanticStep::OutsideWindow),
        format!(
            "(transact {{:valid-from \"2031-01-01\" :valid-to \"2040-01-01\"}} \
             [[#uuid \"{}\" :projection/value false]])",
            id(9)
        )
    );
}

fn every_type() -> Vec<(u128, RowValue)> {
    let overlap = || RowValue::Keyword(":state/overlap".to_owned());
    vec![
        (1, RowValue::Text("vetch".to_owned())),
        (2, RowValue::Integer(42)),
        (3, RowValue::Float),
        (4, RowValue::Boolean(true)),
        (5, RowValue::Ref(10)),
        (6, RowValue::Keyword(":state/ready".to_owned())),
        (7, RowValue::Null),
        (9, overlap()),
        (9, overlap()),
    ]
}

#[test]
fn semantics_are_judged_by_rows() {
    let good = SemanticObservations {
        initial: every_type(),
        stale_read_rejected: true,
        after_assertion: vec![(8, RowValue::Integer(99))],
        after_scoped_retraction: vec![(8, RowValue::Integer(99))],
        after_unscoped_retraction: vec![(8, RowValue::Integer(99))],
        after_outside_window: every_type(),
        fingerprints: (5, 5),
        rebuilt_rows_equal: true,
    };
    let found = measure_semantics(&good);
    assert!(found.all_value_types && found.ref_value && found.assert_refresh);
    assert!(found.scoped_retract && found.unscoped_retract && found.valid_window);
    assert!(found.overlapping_windows && found.stale_read_rejected);
    assert!(found.deterministic_rebuild);

    let mut fewer = every_type();
    fewer.pop();
    let bad = SemanticObservations {
        initial: vec![(5, RowValue::Ref(9))],
        stale_read_rejected: false,
        after_assertion: vec![(8, RowValue::Integer(98))],
        after_scoped_retraction: every_type(),
        after_unscoped_retraction: every_type(),
        after_outside_window: {
            fewer.push((9, RowValue::Boolean(false)));
            fewer
        },
        fingerprints: (5, 6),
        rebuilt_rows_equal: true,
    };
    let found = measure_semantics(&bad);
    assert!(!found.all_value_types && !found.ref_value && !found.assert_refresh);
    assert!(!found.scoped_retract && !found.unscoped_retract && !found.valid_window);
    assert!(!found.overlapping_windows && !found.stale_read_rejected);
    assert!(!found.deterministic_rebuild);
}

#[test]
fn nearest_rank_keeps_twentieth_sample_as_max() {
    let samples = (1..=20).map(f64::from).collect::<Vec<_>>();
    assert_eq!(nearest_rank(&samples, 50), Some(10.0));
    assert_eq!(nearest_rank(&samples, 95), Some(19.0));
    assert_eq!(nearest_rank(&samples, 100), Some(20.0));
}

/// Summarise samples in any order.
fn summary_of(values: &[f64]) -> Summary<f64> {
    let in_order = |mut values: Vec<f64>| {
        values.sort_by(f64::total_cmp);
        values
    };
    let sorted = in_order(values.to_vec());
    let p50 = layout_percentile(&sorted, 50).unwrap();
    let deviations = in_order(values.iter().map(|value| (value - p50).abs()).collect());
    summarize(&sorted, &deviations).unwrap()
}

#[test]
fn nearest_rank_p95_keeps_max_separate_at_twenty_samples() {
    let values = (1..=20).map(f64::from).collect::<Vec<_>>();
    let summary = summary_of(&values);
    assert_eq!(summary.p50, 10.0);
    assert_eq!(summary.p95, 19.0);
    assert_eq!(summary.max, 20.0);
    assert_eq!(summary.mad, 5.0);
}

#[test]
fn nearest_rank_handles_odd_even_equal_and_outlier_samples() {
    assert_eq!(layout_percentile(&[1.0, 2.0, 3.0], 50), Some(2.0));
    assert_eq!(layout_percentile(&[1.0, 2.0, 3.0, 4.0], 50), Some(2.0));
    assert_eq!(summary_of(&[7.0, 7.0, 7.0]).mad, 0.0);
    let summary = summary_of(&[1.0, 1.0, 1.0, 100.0]);
    assert_eq!(summary.p50, 1.0);
    assert_eq!(summary.max, 100.0);
    assert!(summarize::<f64>(&[], &[]).is_none());
}

#[test]
fn percentile_rejects_empty_and_invalid_percent_inputs() {
    assert!(layout_percentile::<f64>(&[], 50).is_none());
    assert!(layout_percentile(&[1.0], 0).is_none());
    assert!(layout_percentile(&[1.0], 101).is_none());
}

#[test]
fn ranks_cover_odd_even_and_edge_percentages() {
    assert_eq!(nearest_rank::<u64>(&[], 50), None);
    assert_eq!(nearest_rank(&[1], 0), None);
    assert_eq!(nearest_rank(&[1], 101), None);
    assert_eq!(open_rank(&[4, 5], 0), Some(4));
    assert_eq!(open_rank(&[4, 5], 200), None);
    assert_eq!(open_rank::<u64>(&[], 50), None);
    assert_eq!(spread_percentile(&[1, 2, 3, 4], 50), Some(3));
    assert_eq!(spread_percentile(&[1, 2, 3, 4], 95), Some(4));
    assert_eq!(spread_percentile::<u64>(&[], 50), None);
}

#[test]
fn candidate_order_is_balanced_for_every_probe() {
    for probe_index in 0..PROBE_COUNT {
        let source_first = (0..FULL_TRIALS)
            .filter(|trial| candidate_order(*trial, probe_index)[0] == CandidateKind::Source)
            .count();
        assert_eq!(source_first, FULL_TRIALS / 2);
    }
}

#[test]
fn probe_order_rotates_cyclically() {
    assert_eq!(rotated_probe_indices(0), [0, 1, 2]);
    assert_eq!(rotated_probe_indices(1), [1, 2, 0]);
    assert_eq!(rotated_probe_indices(2), [2, 0, 1]);
    assert_eq!(rotated_probe_indices(3), [0, 1, 2]);
}

#[test]
fn temporal_fixture_pairs_are_exact() {
    assert_eq!(
        expected_pair(1_000_000, TEMPORAL_BEFORE),
        (500_000, 249_999_500_000)
    );
    assert_eq!(
        expected_pair(1_000_000, TEMPORAL_BOUNDARY),
        (750_000, 374_999_500_000)
    );
    assert_eq!(
        expected_pair(1_000_000, TEMPORAL_AFTER),
        (500_000, 249_999_250_000)
    );
}

fn fixture(fill_percent: u8, sha256: &str, clean: bool) -> FixtureReceipt {
    FixtureReceipt {
        schema: "vicia.temporal-projection-fixture.v1".to_owned(),
        facts: 10_000,
        fill_percent,
        bytes: 42,
        sha256: sha256.to_owned(),
        format_version: 12,
        builder_source_commit: "cd".repeat(20),
        builder_tracked_clean: clean,
    }
}

#[test]
fn fixture_metadata_binds_fill_graph_and_builder() {
    let good = "ab".repeat(32);
    assert!(
        validate_fixture_metadata(
            &fixture(EXPECTED_FILL_PERCENT, &good, true),
            42,
            &"ab".repeat(32),
            12,
            10_000,
            &"cd".repeat(20),
            true,
        )
        .is_ok()
    );

    let wrong_fill = fixture(87, &good, true);
    assert!(
        validate_fixture_metadata(
            &wrong_fill,
            42,
            &"ab".repeat(32),
            12,
            10_000,
            &"cd".repeat(20),
            true,
        )
        .is_err()
    );

    let wrong_graph = fixture(EXPECTED_FILL_PERCENT, &"ef".repeat(32), true);
    assert!(
        validate_fixture_metadata(
            &wrong_graph,
            42,
            &"ab".repeat(32),
            12,
            10_000,
            &"cd".repeat(20),
            true,
        )
        .is_err()
    );

    let dirty_builder = fixture(EXPECTED_FILL_PERCENT, &good, false);
    assert!(
        validate_fixture_metadata(
            &dirty_builder,
            42,
            &"ab".repeat(32),
            12,
            10_000,
            &"cd".repeat(20),
            true,
        )
        .is_err()
    );
}

#[test]
fn fixture_metadata_reports_each_fault() {
    let sha = "ab".repeat(32);
    let commit = "cd".repeat(20);
    let check = |fixture: &FixtureReceipt, facts: u64, commit: &str, clean: bool| {
        validate_fixture_metadata(fixture, 42, &sha, 12, facts, commit, clean)
    };
    let mut other = fixture(90, &sha, false);
    other.schema = "x".to_owned();
    assert_eq!(check(&other, 10_000, &commit, true), Err(TailError::FixtureSchema));
    let dirty = fixture(90, &sha, false);
    assert_eq!(check(&dirty, 9, &commit, true), Err(TailError::FixtureFacts));
    assert_eq!(check(&dirty, 10_000, "ee", true), Err(TailError::FixtureBuilder));
    assert_eq!(
        check(&dirty, 10_000, &commit, true),
        Err(TailError::FixtureBuilderDirty)
    );
    assert_eq!(check(&dirty, 10_000, &commit, false), Ok(()));
}

fn answer(facts: u64, probe_index: usize, elapsed: f64) -> TimedAggregate<f64> {
    let (count, checksum) = expected_pair(facts, probe(probe_index).valid_at);
    TimedAggregate { elapsed, count, checksum }
}

fn identity(tx_count: u64) -> ImageIdentity {
    image_identity((1, 2, tx_count), ProjectionContent { rows: 8, fingerprint: 0xab }, 4096)
}

fn trial(trial_index: usize, tx_count: u64) -> Trial<f64> {
    let probes = rotated_probe_indices(trial_index)
        .iter()
        .map(|index| {
            complete_probe(8, trial_index, *index, answer(8, *index, 1.0), answer(8, *index, 2.0))
                .unwrap()
        })
        .collect();
    Trial {
        trial_index,
        probe_order: probe_order_names(trial_index),
        image: identity(tx_count),
        probes,
    }
}

#[test]
fn trials_are_validated_and_summarized() {
    assert_eq!(identity(3).fingerprint, "00000000000000ab");
    let good = vec![trial(0, 3), trial(1, 3)];
    assert_eq!(validate_trial_set(&good, 2, 8), Ok(()));
    assert_eq!(validate_trial_set(&good, 3, 8), Err(TailError::TrialCount));
    assert_eq!(validate_trial_set(&good, 2, 9), Err(TailError::TrialShape));
    assert_eq!(
        validate_trial_set(&vec![trial(1, 3), trial(0, 3)], 2, 8),
        Err(TailError::TrialRotation)
    );
    let mut swapped = trial(0, 3);
    swapped.probes[0].order.reverse();
    assert_eq!(
        validate_trial_set(&vec![swapped], 1, 8),
        Err(TailError::CandidateOrder)
    );
    let mut renamed = trial(0, 3);
    renamed.probes[2].name = "x".to_owned();
    assert_eq!(
        validate_trial_set(&vec![renamed], 1, 8),
        Err(TailError::TrialProbeMissing)
    );
    assert_eq!(common_identity(&good).unwrap().tx_count, 3);
    assert_eq!(
        common_identity(&vec![trial(0, 3), trial(1, 4)]).unwrap_err(),
        TailError::IdentityChanged
    );
    assert_eq!(
        common_identity::<f64>(&vec![]).unwrap_err(),
        TailError::IdentityMissing
    );
    let series = probe_series(&good, 0, 8).unwrap();
    assert_eq!(series.source, vec![1.0, 2.0]);
    assert_eq!(series.decoded, vec![2.0, 1.0]);
    assert!(series.exact);
    assert!(!probe_series(&good, 0, 12).unwrap().exact);
    let mut lacking = trial(0, 3);
    lacking.probes.clear();
    assert_eq!(
        probe_series(&vec![lacking], 0, 8).unwrap_err(),
        TailError::ProbeSampleMissing
    );
    let wrong = TimedAggregate { elapsed: 1.0, count: 0, checksum: 0 };
    assert_eq!(
        complete_probe(8, 0, 1, answer(8, 1, 1.0), wrong).unwrap_err().message(),
        "temporal aggregate mismatch at 1735689600000"
    );
    assert_eq!(ensure_expected(8, TEMPORAL_BEFORE, (4, 12)), Ok(()));
}

#[test]
fn projections_and_probes_are_admitted() {
    let source = ProjectionContent { rows: 8, fingerprint: 1 };
    assert_eq!(check_projections(8, source, source), Ok(()));
    assert_eq!(check_projections(9, source, source), Err(TailError::SourceRows));
    assert_eq!(
        check_projections(8, source, ProjectionContent { rows: 8, fingerprint: 2 }),
        Err(TailError::ProjectionsDiffer)
    );
    let open = probe_gates(true, (true, true, true, true));
    let shut = probe_gates(true, (true, true, false, true));
    assert!(open.admitted && !shut.admitted);
    assert!(tail_admitted(true, &vec![open, open]));
    assert!(!tail_admitted(true, &vec![open, shut]));
    assert!(!tail_admitted(false, &vec![open]));
}

#[test]
fn isolation_variants_have_their_expectations() {
    assert_eq!(PendingKind::parse("unrelated"), Ok(PendingKind::Unrelated));
    assert_eq!(
        PendingKind::parse(PendingKind::SelectedControl.cli_name()),
        Ok(PendingKind::SelectedControl)
    );
    assert_eq!(
        PendingKind::parse("x").unwrap_err().message(),
        "pending kind must be unrelated or selected-control"
    );
    assert_eq!(PendingKind::Unrelated.label(100), "unrelated-100");
    assert_eq!(PendingKind::SelectedControl.label(10), "selected-control-10");
    assert_eq!(
        batch_command(PendingKind::Unrelated, "pending", 1, 2),
        "(transact [[:iso/pending1 :bench/unrelated 1]])"
    );
    assert_eq!(
        variant_specs(Profile::Smoke),
        vec![
            (PendingKind::Unrelated, 0),
            (PendingKind::Unrelated, 100),
            (PendingKind::Unrelated, 1_000),
            (PendingKind::Unrelated, 10_000),
            (PendingKind::SelectedControl, SELECTED_CONTROL_FACTS),
        ]
    );
    assert!(needs_preparation(1) && !needs_preparation(0));
    assert_eq!(
        expected(PendingKind::Unrelated, 10_000),
        (1_000_000, 499_999_500_000)
    );
    assert_eq!(
        expected(PendingKind::SelectedControl, 10_000),
        (1_010_000, 500_049_495_000)
    );
    assert!(check_variant(PendingKind::Unrelated, 7, (1_000_000, 499_999_500_000)).is_ok());
    assert_eq!(
        check_variant(PendingKind::Unrelated, 7, (1, -2)).unwrap_err().message(),
        "unrelated-7: correctness mismatch: count 1/1000000, checksum -2/499999500000"
    );
    assert!(check_repetition((1, 2), (1, 2)).is_ok());
    assert_eq!(
        check_repetition((1, 2), (1, 3)).unwrap_err().message(),
        "aggregate correctness changed between repetitions"
    );
    assert_eq!(
        check_base_log(true).unwrap_err().message(),
        "base checkpoint left a WAL sidecar"
    );
    assert_eq!(
        check_prepared_log(false).unwrap_err().message(),
        "pending preparation did not leave a WAL sidecar"
    );
    assert_eq!(workload_peak(5, &vec![3, 9, 4]), 9);
    assert_eq!(workload_peak(5, &vec![]), 5);
    let memory = variant_memory(
        (100, breakdown(1, 2, 3, 4)),
        (90, breakdown(5, 2, 3, 4)),
        140,
        200,
    );
    assert_eq!(memory.workload_delta_rss_bytes, 40);
    assert_eq!(memory.retained_delta_rss_bytes, 0);
    assert_eq!(memory.retained_delta_breakdown, breakdown(4, 0, 0, 0));
}

#[test]
fn routing_is_judged() {
    assert_eq!(check_fixture(5, "ab", 5, "ab"), Ok(()));
    assert_eq!(check_fixture(4, "ab", 5, "ab"), Err(RoutingError::FixtureFacts));
    assert_eq!(check_fixture(5, "ab", 5, "cd"), Err(RoutingError::FixtureBuilder));
    assert_eq!(routing_pair(1_000_000), (500_000, 249_999_250_000));
    assert_eq!(accept_trial(None, (1, 2), false, 0), Ok((1, 2)));
    assert_eq!(accept_trial(Some((1, 2)), (1, 2), true, 1), Ok((1, 2)));
    assert_eq!(
        accept_trial(Some((1, 2)), (1, 3), true, 0),
        Err(RoutingError::AggregateChanged)
    );
    assert_eq!(
        accept_trial(Some((1, 2)), (1, 2), true, 0),
        Err(RoutingError::NotRouted)
    );
    assert_eq!(series_pair(None), Err(RoutingError::NoSamples));
    assert_eq!(query_rss_delta(100, 90, 130), 30);
    assert_eq!(query_rss_delta(100, 120, 130), 10);
    let diagnostics = ProjectionReadDiagnostics {
        route_attempts: 1,
        completed_scans: 1,
        ledger_fallbacks: 0,
        pages_read: 9,
        full_image_decodes: 0,
    };
    let pair = routing_pair(8);
    let gates = judge(8, pair, pair, diagnostics, 2_097_152, (true, true, true));
    assert!(routing_admitted(true, gates) && !routing_admitted(false, gates));
    let gates = judge(8, pair, (0, 0), diagnostics, 2_097_153, (true, true, true));
    assert!(!gates.exact && !gates.query_rss && gates.routed && gates.page_backed);
    assert!(!routing_admitted(true, gates));
}

#[test]
fn candidate_order_rotates_once_per_repetition() {
    let orders = rotated_orders(fills().len());
    assert_eq!(orders.len(), fills().len());
    for (repetition, order) in orders.iter().enumerate() {
        assert_eq!(order.len(), fills().len());
        assert_eq!(order[0], fills()[repetition]);
        let mut sorted = order.clone();
        sorted.sort_unstable();
        assert_eq!(sorted, fills());
    }
}

fn checkpoint(elapsed: f64, graph_bytes: u64) -> CheckpointSample<f64, &'static str> {
    CheckpointSample {
        elapsed,
        baseline_rss_bytes: 1,
        peak_rss_bytes: 3,
        delta_rss_bytes: 2,
        graph_bytes,
        layout: "layout",
    }
}

fn query(point: f64, checksum: i128) -> QuerySample<f64> {
    QuerySample {
        point,
        aggregate: point * 2.0,
        count: 4,
        checksum,
        baseline_rss_bytes: 1,
        peak_rss_bytes: 3,
        delta_rss_bytes: 2,
    }
}

#[test]
fn layout_samples_are_joined() {
    let mut table = SampleTable::new();
    assert!(table.add(90, 'a').is_ok());
    assert!(table.add(75, 'b').is_ok());
    assert!(table.add(90, 'c').is_ok());
    assert_eq!(table.add(91, 'd'), Err(LayoutError::UnknownFill));
    assert_eq!(
        table.into_groups(),
        vec![vec!['b'], vec![], vec!['a', 'c'], vec![], vec![]]
    );
    assert_eq!(fill_index(100), Ok(4));
    assert_eq!(fill_index(1), Err(LayoutError::UnknownFill));

    let joined = combine_checkpoint_samples(vec![checkpoint(1.0, 8), checkpoint(2.0, 8)]).unwrap();
    assert_eq!(joined.elapsed_samples, vec![1.0, 2.0]);
    assert_eq!(joined.delta_rss_samples_bytes, vec![2, 2]);
    assert_eq!((joined.graph_bytes, joined.layout), (8, "layout"));
    assert_eq!(
        combine_checkpoint_samples(vec![checkpoint(1.0, 8), checkpoint(2.0, 9)]).unwrap_err(),
        LayoutError::GraphSizesDiffer
    );
    assert_eq!(
        combine_checkpoint_samples::<f64, ()>(vec![]).unwrap_err(),
        LayoutError::CheckpointSampleMissing
    );

    let joined = combine_query_samples(vec![query(1.0, 6), query(2.0, 6)]).unwrap();
    assert_eq!(joined.aggregate_samples, vec![2.0, 4.0]);
    assert_eq!((joined.count, joined.checksum), (4, 6));
    assert_eq!(
        combine_query_samples(vec![query(1.0, 6), query(2.0, 7)]).unwrap_err(),
        LayoutError::QueryResultsDiffer
    );
    assert_eq!(
        combine_query_samples::<f64>(vec![]).unwrap_err(),
        LayoutError::QuerySampleMissing
    );
}

#[test]
fn fullest_passing_fill_is_selected() {
    let passed = judge_candidate(90, 100, (true, true, true), true);
    assert!(passed.size && passed.passed);
    assert!(!judge_candidate(91, 100, (true, true, true), true).passed);
    assert!(!judge_candidate(90, 100, (true, false, true), true).passed);
    assert!(judge_candidate(u64::MAX, u64::MAX, (true, true, true), true).size);
    let judged = |fill_percent, gates| JudgedFill { fill_percent, gates };
    assert_eq!(
        select_fill(&vec![
            judged(75, passed),
            judged(85, passed),
            judged(95, passed),
            judged(100, empty_gates()),
        ]),
        Some(95)
    );
    assert_eq!(select_fill(&vec![judged(75, passed)]), None);
    assert_eq!(baseline_index(&vec![85, 75]), Ok(1));
    assert_eq!(
        baseline_index(&vec![85]).unwrap_err().message(),
        "missing fill-75 baseline"
    );
    let index = IndexSpace { leaf_unused_bytes: 3, internal_unused_bytes: 4 };
    assert_eq!(index_unused(index, index, index, index), 28);
}
