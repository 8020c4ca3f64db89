//! What every metric is printed with: its headings, once, directly before its samples.

use crate::json::is_name;
use crate::relay::metrics::family::{
    all_lines, is_bucket, is_help, is_one_line, is_proper, is_sample, is_type,
    lemma_decimal_is_one_line, lemma_headed_once, lemma_scalar_is_proper, start, unlines,
};
use crate::relay::metrics::{bucket_sample, Histogram, Metrics};
use crate::text::decimal;
use vstd::prelude::*;

verus! {

/// A histogram that is well formed is printed properly.
proof fn lemma_family_is_proper(
    histogram: Histogram,
    name: Seq<char>,
    help: Seq<char>,
    sum: Seq<char>,
)
    requires
        histogram.wf(),
        is_name(name),
        name.len() > 0,
        is_one_line(help),
        is_one_line(sum),
    ensures
        is_proper(histogram@.family(name, help, sum)),
{
    let counted = histogram@;
    let family = counted.family(name, help, sum);
    let size = counted.bounds.len() as int;
    reveal_strlit("histogram");
    reveal_strlit("+Inf");
    reveal_strlit("_bucket{le=\"");
    reveal_strlit("\"} ");
    reveal_strlit("_sum ");
    reveal_strlit("_count ");
    assert forall|i: int| 0 <= i < family.samples.len() implies is_one_line(
        #[trigger] family.samples[i],
    ) && is_sample(family.samples[i], name) by {
        let sample = family.samples[i];
        if i <= size {
            let bound = if i < size {
                counted.bounds[i]
            } else {
                "+Inf"@
            };
            let n = counted.cumulative(i + 1);
            lemma_decimal_is_one_line(n);
            assert(sample == bucket_sample(name, bound, n));
            assert(is_bucket(sample, name, bound, n));
            assert(is_one_line(bound));
        } else if i == size + 1 {
            assert(sample == name + "_sum "@ + sum);
        } else {
            lemma_decimal_is_one_line(counted.count);
            assert(sample == name + "_count "@ + decimal(counted.count));
        }
    }
}

/// Where a name stands among those that are printed.
spec fn place(name: Seq<char>) -> int {
    if name == "relay_publisher_connections"@ {
        0
    } else if name == "relay_mirror_connections"@ {
        1
    } else if name == "relay_terminals_open"@ {
        2
    } else if name == "relay_terminal_open_requests_pending"@ {
        3
    } else if name == "relay_terminals_resident"@ {
        4
    } else if name == "relay_replay_bytes_resident"@ {
        5
    } else if name == "relay_dirty_bytes"@ {
        6
    } else if name == "relay_durable_offset_lag_bytes"@ {
        7
    } else if name == "relay_storage_bytes"@ {
        8
    } else if name == "relay_storage_unavailable"@ {
        9
    } else if name == "relay_settings_revision"@ {
        10
    } else if name == "relay_settings_committed_revision"@ {
        11
    } else if name == "relay_settings_propagation_lag_revisions"@ {
        12
    } else if name == "relay_publisher_connections_total"@ {
        13
    } else if name == "relay_mirror_connections_total"@ {
        14
    } else if name == "relay_publishers_superseded_total"@ {
        15
    } else if name == "relay_terminals_opened_total"@ {
        16
    } else if name == "relay_terminals_closed_total"@ {
        17
    } else if name == "relay_terminal_open_requests_opened_total"@ {
        18
    } else if name == "relay_terminal_open_requests_declined_total"@ {
        19
    } else if name == "relay_terminal_open_requests_unavailable_total"@ {
        20
    } else if name == "relay_terminal_open_requests_timeout_total"@ {
        21
    } else if name == "relay_terminal_open_requests_refused_total"@ {
        22
    } else if name == "relay_output_bytes_accepted_total"@ {
        23
    } else if name == "relay_output_bytes_delivered_total"@ {
        24
    } else if name == "relay_output_bytes_replayed_total"@ {
        25
    } else if name == "relay_evicted_bytes_total"@ {
        26
    } else if name == "relay_evictions_total"@ {
        27
    } else if name == "relay_checkpoint_transactions_total"@ {
        28
    } else if name == "relay_checkpoint_failures_total"@ {
        29
    } else if name == "relay_checkpoint_rows_written_total"@ {
        30
    } else if name == "relay_checkpoint_frames_coalesced_total"@ {
        31
    } else if name == "relay_offset_mismatches_total"@ {
        32
    } else if name == "relay_offset_ahead_rejections_total"@ {
        33
    } else if name == "relay_replay_gaps_total"@ {
        34
    } else if name == "relay_slow_consumer_disconnects_total"@ {
        35
    } else if name == "relay_oversized_frames_rejected_total"@ {
        36
    } else if name == "relay_backpressure_waits_total"@ {
        37
    } else if name == "relay_backpressure_timeouts_total"@ {
        38
    } else if name == "relay_input_frames_delivered_total"@ {
        39
    } else if name == "relay_input_bytes_delivered_total"@ {
        40
    } else if name == "relay_input_frames_refused_total"@ {
        41
    } else if name == "relay_input_rate_limited_total"@ {
        42
    } else if name == "relay_resize_requests_forwarded_total"@ {
        43
    } else if name == "relay_auth_failures_total"@ {
        44
    } else if name == "relay_auth_successes_total"@ {
        45
    } else if name == "relay_challenges_issued_total"@ {
        46
    } else if name == "relay_challenges_consumed_total"@ {
        47
    } else if name == "relay_rate_limited_requests_total"@ {
        48
    } else if name == "relay_device_revocations_total"@ {
        49
    } else if name == "relay_revocation_enforced_disconnects_total"@ {
        50
    } else if name == "relay_storage_errors_total"@ {
        51
    } else if name == "relay_retention_terminals_deleted_total"@ {
        52
    } else if name == "relay_quota_terminals_deleted_total"@ {
        53
    } else if name == "relay_settings_reload_failures_total"@ {
        54
    } else if name == "relay_listener_rebinds_total"@ {
        55
    } else if name == "relay_http_requests_total"@ {
        56
    } else if name == "relay_http_requests_failed_total"@ {
        57
    } else if name == "relay_checkpoint_batch_bytes"@ {
        58
    } else if name == "relay_checkpoint_batch_age_seconds"@ {
        59
    } else if name == "relay_checkpoint_terminals_per_batch"@ {
        60
    } else if name == "relay_http_request_seconds"@ {
        61
    } else {
        -1
    }
}

/// The names differ in their length, in the letter behind their common beginning, or in the
/// twelfth letter from their end.
#[verifier::spinoff_prover]
proof fn lemma_letters()
    ensures
        "relay_publisher_connections"@.len() == 27 && "relay_publisher_connections"@[6] == 'p' && "relay_publisher_connections"@[15] == '_',
        "relay_mirror_connections"@.len() == 24 && "relay_mirror_connections"@[6] == 'm' && "relay_mirror_connections"@[12] == '_',
        "relay_terminals_open"@.len() == 20 && "relay_terminals_open"@[6] == 't' && "relay_terminals_open"@[8] == 'r',
        "relay_terminal_open_requests_pending"@.len() == 36 && "relay_terminal_open_requests_pending"@[6] == 't' && "relay_terminal_open_requests_pending"@[24] == 'e',
        "relay_terminals_resident"@.len() == 24 && "relay_terminals_resident"@[6] == 't' && "relay_terminals_resident"@[12] == 'a',
        "relay_replay_bytes_resident"@.len() == 27 && "relay_replay_bytes_resident"@[6] == 'r' && "relay_replay_bytes_resident"@[15] == 't',
        "relay_dirty_bytes"@.len() == 17 && "relay_dirty_bytes"@[6] == 'd' && "relay_dirty_bytes"@[5] == '_',
        "relay_durable_offset_lag_bytes"@.len() == 30 && "relay_durable_offset_lag_bytes"@[6] == 'd' && "relay_durable_offset_lag_bytes"@[18] == 'e',
        "relay_storage_bytes"@.len() == 19 && "relay_storage_bytes"@[6] == 's' && "relay_storage_bytes"@[7] == 't',
        "relay_storage_unavailable"@.len() == 25 && "relay_storage_unavailable"@[6] == 's' && "relay_storage_unavailable"@[13] == '_',
        "relay_settings_revision"@.len() == 23 && "relay_settings_revision"@[6] == 's' && "relay_settings_revision"@[11] == 'n',
        "relay_settings_committed_revision"@.len() == 33 && "relay_settings_committed_revision"@[6] == 's' && "relay_settings_committed_revision"@[21] == 't',
        "relay_settings_propagation_lag_revisions"@.len() == 40 && "relay_settings_propagation_lag_revisions"@[6] == 's' && "relay_settings_propagation_lag_revisions"@[28] == 'a',
        "relay_publisher_connections_total"@.len() == 33 && "relay_publisher_connections_total"@[6] == 'p' && "relay_publisher_connections_total"@[21] == 'c',
        "relay_mirror_connections_total"@.len() == 30 && "relay_mirror_connections_total"@[6] == 'm' && "relay_mirror_connections_total"@[18] == 'c',
        "relay_publishers_superseded_total"@.len() == 33 && "relay_publishers_superseded_total"@[6] == 'p' && "relay_publishers_superseded_total"@[21] == 'r',
        "relay_terminals_opened_total"@.len() == 28 && "relay_terminals_opened_total"@[6] == 't' && "relay_terminals_opened_total"@[16] == 'o',
        "relay_terminals_closed_total"@.len() == 28 && "relay_terminals_closed_total"@[6] == 't' && "relay_terminals_closed_total"@[16] == 'c',
        "relay_terminal_open_requests_opened_total"@.len() == 41 && "relay_terminal_open_requests_opened_total"@[6] == 't' && "relay_terminal_open_requests_opened_total"@[29] == 'o',
        "relay_terminal_open_requests_declined_total"@.len() == 43 && "relay_terminal_open_requests_declined_total"@[6] == 't' && "relay_terminal_open_requests_declined_total"@[31] == 'c',
        "relay_terminal_open_requests_unavailable_total"@.len() == 46 && "relay_terminal_open_requests_unavailable_total"@[6] == 't' && "relay_terminal_open_requests_unavailable_total"@[34] == 'i',
        "relay_terminal_open_requests_timeout_total"@.len() == 42 && "relay_terminal_open_requests_timeout_total"@[6] == 't' && "relay_terminal_open_requests_timeout_total"@[30] == 'i',
        "relay_terminal_open_requests_refused_total"@.len() == 42 && "relay_terminal_open_requests_refused_total"@[6] == 't' && "relay_terminal_open_requests_refused_total"@[30] == 'e',
        "relay_output_bytes_accepted_total"@.len() == 33 && "relay_output_bytes_accepted_total"@[6] == 'o' && "relay_output_bytes_accepted_total"@[21] == 'c',
        "relay_output_bytes_delivered_total"@.len() == 34 && "relay_output_bytes_delivered_total"@[6] == 'o' && "relay_output_bytes_delivered_total"@[22] == 'i',
        "relay_output_bytes_replayed_total"@.len() == 33 && "relay_output_bytes_replayed_total"@[6] == 'o' && "relay_output_bytes_replayed_total"@[21] == 'p',
        "relay_evicted_bytes_total"@.len() == 25 && "relay_evicted_bytes_total"@[6] == 'e' && "relay_evicted_bytes_total"@[13] == '_',
        "relay_evictions_total"@.len() == 21 && "relay_evictions_total"@[6] == 'e' && "relay_evictions_total"@[9] == 'c',
        "relay_checkpoint_transactions_total"@.len() == 35 && "relay_checkpoint_transactions_total"@[6] == 'c' && "relay_checkpoint_transactions_total"@[23] == 'c',
        "relay_checkpoint_failures_total"@.len() == 31 && "relay_checkpoint_failures_total"@[6] == 'c' && "relay_checkpoint_failures_total"@[19] == 'i',
        "relay_checkpoint_rows_written_total"@.len() == 35 && "relay_checkpoint_rows_written_total"@[6] == 'c' && "relay_checkpoint_rows_written_total"@[23] == 'r',
        "relay_checkpoint_frames_coalesced_total"@.len() == 39 && "relay_checkpoint_frames_coalesced_total"@[6] == 'c' && "relay_checkpoint_frames_coalesced_total"@[27] == 'l',
        "relay_offset_mismatches_total"@.len() == 29 && "relay_offset_mismatches_total"@[6] == 'o' && "relay_offset_mismatches_total"@[17] == 'a',
        "relay_offset_ahead_rejections_total"@.len() == 35 && "relay_offset_ahead_rejections_total"@[6] == 'o' && "relay_offset_ahead_rejections_total"@[23] == 'c',
        "relay_replay_gaps_total"@.len() == 23 && "relay_replay_gaps_total"@[6] == 'r' && "relay_replay_gaps_total"@[11] == 'y',
        "relay_slow_consumer_disconnects_total"@.len() == 37 && "relay_slow_consumer_disconnects_total"@[6] == 's' && "relay_slow_consumer_disconnects_total"@[25] == 'n',
        "relay_oversized_frames_rejected_total"@.len() == 37 && "relay_oversized_frames_rejected_total"@[6] == 'o' && "relay_oversized_frames_rejected_total"@[25] == 'j',
        "relay_backpressure_waits_total"@.len() == 30 && "relay_backpressure_waits_total"@[6] == 'b' && "relay_backpressure_waits_total"@[18] == '_',
        "relay_backpressure_timeouts_total"@.len() == 33 && "relay_backpressure_timeouts_total"@[6] == 'b' && "relay_backpressure_timeouts_total"@[21] == 'm',
        "relay_input_frames_delivered_total"@.len() == 34 && "relay_input_frames_delivered_total"@[6] == 'i' && "relay_input_frames_delivered_total"@[22] == 'i',
        "relay_input_bytes_delivered_total"@.len() == 33 && "relay_input_bytes_delivered_total"@[6] == 'i' && "relay_input_bytes_delivered_total"@[21] == 'i',
        "relay_input_frames_refused_total"@.len() == 32 && "relay_input_frames_refused_total"@[6] == 'i' && "relay_input_frames_refused_total"@[20] == 'e',
        "relay_input_rate_limited_total"@.len() == 30 && "relay_input_rate_limited_total"@[6] == 'i' && "relay_input_rate_limited_total"@[18] == 'i',
        "relay_resize_requests_forwarded_total"@.len() == 37 && "relay_resize_requests_forwarded_total"@[6] == 'r' && "relay_resize_requests_forwarded_total"@[25] == 'w',
        "relay_auth_failures_total"@.len() == 25 && "relay_auth_failures_total"@[6] == 'a' && "relay_auth_failures_total"@[13] == 'i',
        "relay_auth_successes_total"@.len() == 26 && "relay_auth_successes_total"@[6] == 'a' && "relay_auth_successes_total"@[14] == 'c',
        "relay_challenges_issued_total"@.len() == 29 && "relay_challenges_issued_total"@[6] == 'c' && "relay_challenges_issued_total"@[17] == 'i',
        "relay_challenges_consumed_total"@.len() == 31 && "relay_challenges_consumed_total"@[6] == 'c' && "relay_challenges_consumed_total"@[19] == 'n',
        "relay_rate_limited_requests_total"@.len() == 33 && "relay_rate_limited_requests_total"@[6] == 'r' && "relay_rate_limited_requests_total"@[21] == 'q',
        "relay_device_revocations_total"@.len() == 30 && "relay_device_revocations_total"@[6] == 'd' && "relay_device_revocations_total"@[18] == 'a',
        "relay_revocation_enforced_disconnects_total"@.len() == 43 && "relay_revocation_enforced_disconnects_total"@[6] == 'r' && "relay_revocation_enforced_disconnects_total"@[31] == 'n',
        "relay_storage_errors_total"@.len() == 26 && "relay_storage_errors_total"@[6] == 's' && "relay_storage_errors_total"@[14] == 'e',
        "relay_retention_terminals_deleted_total"@.len() == 39 && "relay_retention_terminals_deleted_total"@[6] == 'r' && "relay_retention_terminals_deleted_total"@[27] == 'e',
        "relay_quota_terminals_deleted_total"@.len() == 35 && "relay_quota_terminals_deleted_total"@[6] == 'q' && "relay_quota_terminals_deleted_total"@[23] == 'e',
        "relay_settings_reload_failures_total"@.len() == 36 && "relay_settings_reload_failures_total"@[6] == 's' && "relay_settings_reload_failures_total"@[24] == 'i',
        "relay_listener_rebinds_total"@.len() == 28 && "relay_listener_rebinds_total"@[6] == 'l' && "relay_listener_rebinds_total"@[16] == 'e',
        "relay_http_requests_total"@.len() == 25 && "relay_http_requests_total"@[6] == 'h' && "relay_http_requests_total"@[13] == 'q',
        "relay_http_requests_failed_total"@.len() == 32 && "relay_http_requests_failed_total"@[6] == 'h' && "relay_http_requests_failed_total"@[20] == 'f',
        "relay_checkpoint_batch_bytes"@.len() == 28 && "relay_checkpoint_batch_bytes"@[6] == 'c' && "relay_checkpoint_batch_bytes"@[16] == '_',
        "relay_checkpoint_batch_age_seconds"@.len() == 34 && "relay_checkpoint_batch_age_seconds"@[6] == 'c' && "relay_checkpoint_batch_age_seconds"@[22] == '_',
        "relay_checkpoint_terminals_per_batch"@.len() == 36 && "relay_checkpoint_terminals_per_batch"@[6] == 'c' && "relay_checkpoint_terminals_per_batch"@[24] == 'l',
        "relay_http_request_seconds"@.len() == 26 && "relay_http_request_seconds"@[6] == 'h' && "relay_http_request_seconds"@[14] == 'u',
{
    reveal_strlit("relay_publisher_connections");
    reveal_strlit("relay_mirror_connections");
    reveal_strlit("relay_terminals_open");
    reveal_strlit("relay_terminal_open_requests_pending");
    reveal_strlit("relay_terminals_resident");
    reveal_strlit("relay_replay_bytes_resident");
    reveal_strlit("relay_dirty_bytes");
    reveal_strlit("relay_durable_offset_lag_bytes");
    reveal_strlit("relay_storage_bytes");
    reveal_strlit("relay_storage_unavailable");
    reveal_strlit("relay_settings_revision");
    reveal_strlit("relay_settings_committed_revision");
    reveal_strlit("relay_settings_propagation_lag_revisions");
    reveal_strlit("relay_publisher_connections_total");
    reveal_strlit("relay_mirror_connections_total");
    reveal_strlit("relay_publishers_superseded_total");
    reveal_strlit("relay_terminals_opened_total");
    reveal_strlit("relay_terminals_closed_total");
    reveal_strlit("relay_terminal_open_requests_opened_total");
    reveal_strlit("relay_terminal_open_requests_declined_total");
    reveal_strlit("relay_terminal_open_requests_unavailable_total");
    reveal_strlit("relay_terminal_open_requests_timeout_total");
    reveal_strlit("relay_terminal_open_requests_refused_total");
    reveal_strlit("relay_output_bytes_accepted_total");
    reveal_strlit("relay_output_bytes_delivered_total");
    reveal_strlit("relay_output_bytes_replayed_total");
    reveal_strlit("relay_evicted_bytes_total");
    reveal_strlit("relay_evictions_total");
    reveal_strlit("relay_checkpoint_transactions_total");
    reveal_strlit("relay_checkpoint_failures_total");
    reveal_strlit("relay_checkpoint_rows_written_total");
    reveal_strlit("relay_checkpoint_frames_coalesced_total");
    reveal_strlit("relay_offset_mismatches_total");
    reveal_strlit("relay_offset_ahead_rejections_total");
    reveal_strlit("relay_replay_gaps_total");
    reveal_strlit("relay_slow_consumer_disconnects_total");
    reveal_strlit("relay_oversized_frames_rejected_total");
    reveal_strlit("relay_backpressure_waits_total");
    reveal_strlit("relay_backpressure_timeouts_total");
    reveal_strlit("relay_input_frames_delivered_total");
    reveal_strlit("relay_input_bytes_delivered_total");
    reveal_strlit("relay_input_frames_refused_total");
    reveal_strlit("relay_input_rate_limited_total");
    reveal_strlit("relay_resize_requests_forwarded_total");
    reveal_strlit("relay_auth_failures_total");
    reveal_strlit("relay_auth_successes_total");
    reveal_strlit("relay_challenges_issued_total");
    reveal_strlit("relay_challenges_consumed_total");
    reveal_strlit("relay_rate_limited_requests_total");
    reveal_strlit("relay_device_revocations_total");
    reveal_strlit("relay_revocation_enforced_disconnects_total");
    reveal_strlit("relay_storage_errors_total");
    reveal_strlit("relay_retention_terminals_deleted_total");
    reveal_strlit("relay_quota_terminals_deleted_total");
    reveal_strlit("relay_settings_reload_failures_total");
    reveal_strlit("relay_listener_rebinds_total");
    reveal_strlit("relay_http_requests_total");
    reveal_strlit("relay_http_requests_failed_total");
    reveal_strlit("relay_checkpoint_batch_bytes");
    reveal_strlit("relay_checkpoint_batch_age_seconds");
    reveal_strlit("relay_checkpoint_terminals_per_batch");
    reveal_strlit("relay_http_request_seconds");
}

#[verifier::spinoff_prover]
proof fn lemma_places()
    ensures
        place("relay_publisher_connections"@) == 0,
        place("relay_mirror_connections"@) == 1,
        place("relay_terminals_open"@) == 2,
        place("relay_terminal_open_requests_pending"@) == 3,
        place("relay_terminals_resident"@) == 4,
        place("relay_replay_bytes_resident"@) == 5,
        place("relay_dirty_bytes"@) == 6,
        place("relay_durable_offset_lag_bytes"@) == 7,
        place("relay_storage_bytes"@) == 8,
        place("relay_storage_unavailable"@) == 9,
        place("relay_settings_revision"@) == 10,
        place("relay_settings_committed_revision"@) == 11,
        place("relay_settings_propagation_lag_revisions"@) == 12,
        place("relay_publisher_connections_total"@) == 13,
        place("relay_mirror_connections_total"@) == 14,
        place("relay_publishers_superseded_total"@) == 15,
        place("relay_terminals_opened_total"@) == 16,
        place("relay_terminals_closed_total"@) == 17,
        place("relay_terminal_open_requests_opened_total"@) == 18,
        place("relay_terminal_open_requests_declined_total"@) == 19,
        place("relay_terminal_open_requests_unavailable_total"@) == 20,
        place("relay_terminal_open_requests_timeout_total"@) == 21,
        place("relay_terminal_open_requests_refused_total"@) == 22,
        place("relay_output_bytes_accepted_total"@) == 23,
        place("relay_output_bytes_delivered_total"@) == 24,
        place("relay_output_bytes_replayed_total"@) == 25,
        place("relay_evicted_bytes_total"@) == 26,
        place("relay_evictions_total"@) == 27,
        place("relay_checkpoint_transactions_total"@) == 28,
        place("relay_checkpoint_failures_total"@) == 29,
        place("relay_checkpoint_rows_written_total"@) == 30,
        place("relay_checkpoint_frames_coalesced_total"@) == 31,
        place("relay_offset_mismatches_total"@) == 32,
        place("relay_offset_ahead_rejections_total"@) == 33,
        place("relay_replay_gaps_total"@) == 34,
        place("relay_slow_consumer_disconnects_total"@) == 35,
        place("relay_oversized_frames_rejected_total"@) == 36,
        place("relay_backpressure_waits_total"@) == 37,
        place("relay_backpressure_timeouts_total"@) == 38,
        place("relay_input_frames_delivered_total"@) == 39,
        place("relay_input_bytes_delivered_total"@) == 40,
        place("relay_input_frames_refused_total"@) == 41,
        place("relay_input_rate_limited_total"@) == 42,
        place("relay_resize_requests_forwarded_total"@) == 43,
        place("relay_auth_failures_total"@) == 44,
        place("relay_auth_successes_total"@) == 45,
        place("relay_challenges_issued_total"@) == 46,
        place("relay_challenges_consumed_total"@) == 47,
        place("relay_rate_limited_requests_total"@) == 48,
        place("relay_device_revocations_total"@) == 49,
        place("relay_revocation_enforced_disconnects_total"@) == 50,
        place("relay_storage_errors_total"@) == 51,
        place("relay_retention_terminals_deleted_total"@) == 52,
        place("relay_quota_terminals_deleted_total"@) == 53,
        place("relay_settings_reload_failures_total"@) == 54,
        place("relay_listener_rebinds_total"@) == 55,
        place("relay_http_requests_total"@) == 56,
        place("relay_http_requests_failed_total"@) == 57,
        place("relay_checkpoint_batch_bytes"@) == 58,
        place("relay_checkpoint_batch_age_seconds"@) == 59,
        place("relay_checkpoint_terminals_per_batch"@) == 60,
        place("relay_http_request_seconds"@) == 61,
{
    lemma_letters();
}

#[verifier::spinoff_prover]
proof fn lemma_gauges_are_proper(metrics: Metrics)
    ensures
        forall|i: int|
            0 <= i < metrics.gauges().len() ==> is_proper(#[trigger] metrics.gauges()[i]) && place(
                metrics.gauges()[i].name,
            ) == 0 + i,
        metrics.gauges().len() == 13,
{
    lemma_places();
    reveal_strlit("gauge");
    reveal_strlit("relay_publisher_connections");
    reveal_strlit("Active publisher relay connections.");
    reveal_strlit("relay_mirror_connections");
    reveal_strlit("Active mirror subscriptions.");
    reveal_strlit("relay_terminals_open");
    reveal_strlit("Terminals in the open state.");
    reveal_strlit("relay_terminal_open_requests_pending");
    reveal_strlit("Terminal-open requests awaiting a publisher's answer.");
    reveal_strlit("relay_terminals_resident");
    reveal_strlit("Terminals with an in-memory replay buffer.");
    reveal_strlit("relay_replay_bytes_resident");
    reveal_strlit("Output bytes held in in-memory replay buffers.");
    reveal_strlit("relay_dirty_bytes");
    reveal_strlit("Accepted output bytes not yet committed.");
    reveal_strlit("relay_durable_offset_lag_bytes");
    reveal_strlit("Sum over terminals of next_offset minus durable_offset.");
    reveal_strlit("relay_storage_bytes");
    reveal_strlit("Durable storage consumed, including WAL.");
    reveal_strlit("relay_storage_unavailable");
    reveal_strlit("1 when durable storage is failing and readiness is degraded.");
    reveal_strlit("relay_settings_revision");
    reveal_strlit("Settings revision applied by this instance.");
    reveal_strlit("relay_settings_committed_revision");
    reveal_strlit("Latest settings revision committed to the database.");
    reveal_strlit("relay_settings_propagation_lag_revisions");
    reveal_strlit("Committed settings revision minus the revision applied here.");
    lemma_scalar_is_proper(
        "relay_publisher_connections"@,
        "Active publisher relay connections."@,
        "gauge"@,
        metrics.publisher_connections@ as int,
    );
    lemma_scalar_is_proper(
        "relay_mirror_connections"@,
        "Active mirror subscriptions."@,
        "gauge"@,
        metrics.mirror_connections@ as int,
    );
    lemma_scalar_is_proper(
        "relay_terminals_open"@,
        "Terminals in the open state."@,
        "gauge"@,
        metrics.terminals_open@ as int,
    );
    lemma_scalar_is_proper(
        "relay_terminal_open_requests_pending"@,
        "Terminal-open requests awaiting a publisher's answer."@,
        "gauge"@,
        metrics.terminal_open_requests_pending@ as int,
    );
    lemma_scalar_is_proper(
        "relay_terminals_resident"@,
        "Terminals with an in-memory replay buffer."@,
        "gauge"@,
        metrics.terminals_resident@ as int,
    );
    lemma_scalar_is_proper(
        "relay_replay_bytes_resident"@,
        "Output bytes held in in-memory replay buffers."@,
        "gauge"@,
        metrics.replay_bytes_resident@ as int,
    );
    lemma_scalar_is_proper(
        "relay_dirty_bytes"@,
        "Accepted output bytes not yet committed."@,
        "gauge"@,
        metrics.dirty_bytes@ as int,
    );
    lemma_scalar_is_proper(
        "relay_durable_offset_lag_bytes"@,
        "Sum over terminals of next_offset minus durable_offset."@,
        "gauge"@,
        metrics.durable_offset_lag_bytes@ as int,
    );
    lemma_scalar_is_proper(
        "relay_storage_bytes"@,
        "Durable storage consumed, including WAL."@,
        "gauge"@,
        metrics.storage_bytes@ as int,
    );
    lemma_scalar_is_proper(
        "relay_storage_unavailable"@,
        "1 when durable storage is failing and readiness is degraded."@,
        "gauge"@,
        metrics.storage_unavailable@ as int,
    );
    lemma_scalar_is_proper(
        "relay_settings_revision"@,
        "Settings revision applied by this instance."@,
        "gauge"@,
        metrics.settings_revision@ as int,
    );
    lemma_scalar_is_proper(
        "relay_settings_committed_revision"@,
        "Latest settings revision committed to the database."@,
        "gauge"@,
        metrics.settings_committed_revision@ as int,
    );
    lemma_scalar_is_proper(
        "relay_settings_propagation_lag_revisions"@,
        "Committed settings revision minus the revision applied here."@,
        "gauge"@,
        metrics.settings_committed_revision@ - metrics.settings_revision@,
    );
}

#[verifier::spinoff_prover]
proof fn lemma_terminal_counters_are_proper(metrics: Metrics)
    ensures
        forall|i: int|
            0 <= i < metrics.terminal_counters().len() ==> is_proper(#[trigger] metrics.terminal_counters()[i]) && place(
                metrics.terminal_counters()[i].name,
            ) == 13 + i,
        metrics.terminal_counters().len() == 10,
{
    lemma_places();
    reveal_strlit("counter");
    reveal_strlit("relay_publisher_connections_total");
    reveal_strlit("Publisher connections accepted.");
    reveal_strlit("relay_mirror_connections_total");
    reveal_strlit("Mirror subscriptions accepted.");
    reveal_strlit("relay_publishers_superseded_total");
    reveal_strlit("Publisher connections closed because a newer one took over the device.");
    reveal_strlit("relay_terminals_opened_total");
    reveal_strlit("Terminals opened.");
    reveal_strlit("relay_terminals_closed_total");
    reveal_strlit("Terminals closed.");
    reveal_strlit("relay_terminal_open_requests_opened_total");
    reveal_strlit("Terminal-open requests a publisher honoured.");
    reveal_strlit("relay_terminal_open_requests_declined_total");
    reveal_strlit("Terminal-open requests a publisher refused.");
    reveal_strlit("relay_terminal_open_requests_unavailable_total");
    reveal_strlit("Terminal-open requests with no capable publisher connected.");
    reveal_strlit("relay_terminal_open_requests_timeout_total");
    reveal_strlit("Terminal-open requests a publisher never answered.");
    reveal_strlit("relay_terminal_open_requests_refused_total");
    reveal_strlit("Terminal-open requests the relay refused before asking anybody.");
    lemma_scalar_is_proper(
        "relay_publisher_connections_total"@,
        "Publisher connections accepted."@,
        "counter"@,
        metrics.publisher_connections_total@ as int,
    );
    lemma_scalar_is_proper(
        "relay_mirror_connections_total"@,
        "Mirror subscriptions accepted."@,
        "counter"@,
        metrics.mirror_connections_total@ as int,
    );
    lemma_scalar_is_proper(
        "relay_publishers_superseded_total"@,
        "Publisher connections closed because a newer one took over the device."@,
        "counter"@,
        metrics.publishers_superseded@ as int,
    );
    lemma_scalar_is_proper(
        "relay_terminals_opened_total"@,
        "Terminals opened."@,
        "counter"@,
        metrics.terminals_opened_total@ as int,
    );
    lemma_scalar_is_proper(
        "relay_terminals_closed_total"@,
        "Terminals closed."@,
        "counter"@,
        metrics.terminals_closed_total@ as int,
    );
    lemma_scalar_is_proper(
        "relay_terminal_open_requests_opened_total"@,
        "Terminal-open requests a publisher honoured."@,
        "counter"@,
        metrics.terminal_open_requests_opened@ as int,
    );
    lemma_scalar_is_proper(
        "relay_terminal_open_requests_declined_total"@,
        "Terminal-open requests a publisher refused."@,
        "counter"@,
        metrics.terminal_open_requests_declined@ as int,
    );
    lemma_scalar_is_proper(
        "relay_terminal_open_requests_unavailable_total"@,
        "Terminal-open requests with no capable publisher connected."@,
        "counter"@,
        metrics.terminal_open_requests_unavailable@ as int,
    );
    lemma_scalar_is_proper(
        "relay_terminal_open_requests_timeout_total"@,
        "Terminal-open requests a publisher never answered."@,
        "counter"@,
        metrics.terminal_open_requests_timeout@ as int,
    );
    lemma_scalar_is_proper(
        "relay_terminal_open_requests_refused_total"@,
        "Terminal-open requests the relay refused before asking anybody."@,
        "counter"@,
        metrics.terminal_open_requests_refused@ as int,
    );
}

#[verifier::spinoff_prover]
proof fn lemma_output_counters_are_proper(metrics: Metrics)
    ensures
        forall|i: int|
            0 <= i < metrics.output_counters().len() ==> is_proper(#[trigger] metrics.output_counters()[i]) && place(
                metrics.output_counters()[i].name,
            ) == 23 + i,
        metrics.output_counters().len() == 12,
{
    lemma_places();
    reveal_strlit("counter");
    reveal_strlit("relay_output_bytes_accepted_total");
    reveal_strlit("Output payload bytes accepted from publishers.");
    reveal_strlit("relay_output_bytes_delivered_total");
    reveal_strlit("Output payload bytes delivered to subscribers, live and replayed.");
    reveal_strlit("relay_output_bytes_replayed_total");
    reveal_strlit("Output payload bytes delivered from the replay window.");
    reveal_strlit("relay_evicted_bytes_total");
    reveal_strlit("Output bytes evicted from replay buffers.");
    reveal_strlit("relay_evictions_total");
    reveal_strlit("Replay buffer eviction operations.");
    reveal_strlit("relay_checkpoint_transactions_total");
    reveal_strlit("Database transactions used to commit terminal output.");
    reveal_strlit("relay_checkpoint_failures_total");
    reveal_strlit("Failed checkpoint commits.");
    reveal_strlit("relay_checkpoint_rows_written_total");
    reveal_strlit("Rows written by checkpoint transactions.");
    reveal_strlit("relay_checkpoint_frames_coalesced_total");
    reveal_strlit("Publisher output frames folded into checkpoint transactions.");
    reveal_strlit("relay_offset_mismatches_total");
    reveal_strlit("Rejected publisher frames whose start offset did not match.");
    reveal_strlit("relay_offset_ahead_rejections_total");
    reveal_strlit("Subscriptions rejected for requesting an offset beyond next_offset.");
    reveal_strlit("relay_replay_gaps_total");
    reveal_strlit("Subscriptions served with a replay gap notice.");
    lemma_scalar_is_proper(
        "relay_output_bytes_accepted_total"@,
        "Output payload bytes accepted from publishers."@,
        "counter"@,
        metrics.output_bytes_accepted@ as int,
    );
    lemma_scalar_is_proper(
        "relay_output_bytes_delivered_total"@,
        "Output payload bytes delivered to subscribers, live and replayed."@,
        "counter"@,
        metrics.output_bytes_delivered@ as int,
    );
    lemma_scalar_is_proper(
        "relay_output_bytes_replayed_total"@,
        "Output payload bytes delivered from the replay window."@,
        "counter"@,
        metrics.output_bytes_replayed@ as int,
    );
    lemma_scalar_is_proper(
        "relay_evicted_bytes_total"@,
        "Output bytes evicted from replay buffers."@,
        "counter"@,
        metrics.evicted_bytes@ as int,
    );
    lemma_scalar_is_proper(
        "relay_evictions_total"@,
        "Replay buffer eviction operations."@,
        "counter"@,
        metrics.evictions@ as int,
    );
    lemma_scalar_is_proper(
        "relay_checkpoint_transactions_total"@,
        "Database transactions used to commit terminal output."@,
        "counter"@,
        metrics.checkpoint_transactions@ as int,
    );
    lemma_scalar_is_proper(
        "relay_checkpoint_failures_total"@,
        "Failed checkpoint commits."@,
        "counter"@,
        metrics.checkpoint_failures@ as int,
    );
    lemma_scalar_is_proper(
        "relay_checkpoint_rows_written_total"@,
        "Rows written by checkpoint transactions."@,
        "counter"@,
        metrics.checkpoint_rows_written@ as int,
    );
    lemma_scalar_is_proper(
        "relay_checkpoint_frames_coalesced_total"@,
        "Publisher output frames folded into checkpoint transactions."@,
        "counter"@,
        metrics.checkpoint_frames_coalesced@ as int,
    );
    lemma_scalar_is_proper(
        "relay_offset_mismatches_total"@,
        "Rejected publisher frames whose start offset did not match."@,
        "counter"@,
        metrics.offset_mismatches@ as int,
    );
    lemma_scalar_is_proper(
        "relay_offset_ahead_rejections_total"@,
        "Subscriptions rejected for requesting an offset beyond next_offset."@,
        "counter"@,
        metrics.offset_ahead_rejections@ as int,
    );
    lemma_scalar_is_proper(
        "relay_replay_gaps_total"@,
        "Subscriptions served with a replay gap notice."@,
        "counter"@,
        metrics.replay_gaps@ as int,
    );
}

#[verifier::spinoff_prover]
proof fn lemma_limit_counters_are_proper(metrics: Metrics)
    ensures
        forall|i: int|
            0 <= i < metrics.limit_counters().len() ==> is_proper(#[trigger] metrics.limit_counters()[i]) && place(
                metrics.limit_counters()[i].name,
            ) == 35 + i,
        metrics.limit_counters().len() == 9,
{
    lemma_places();
    reveal_strlit("counter");
    reveal_strlit("relay_slow_consumer_disconnects_total");
    reveal_strlit("Subscribers disconnected for exceeding their outbound queue bound.");
    reveal_strlit("relay_oversized_frames_rejected_total");
    reveal_strlit("Frames rejected for exceeding the negotiated frame size.");
    reveal_strlit("relay_backpressure_waits_total");
    reveal_strlit("Times a publisher waited for a checkpoint before its frame was accepted.");
    reveal_strlit("relay_backpressure_timeouts_total");
    reveal_strlit("Times a publisher exceeded its unacknowledged window past the wait deadline.");
    reveal_strlit("relay_input_frames_delivered_total");
    reveal_strlit("Terminal input frames delivered to publishers.");
    reveal_strlit("relay_input_bytes_delivered_total");
    reveal_strlit("Terminal input payload bytes delivered to publishers.");
    reveal_strlit("relay_input_frames_refused_total");
    reveal_strlit("Terminal input frames refused, for any reason.");
    reveal_strlit("relay_input_rate_limited_total");
    reveal_strlit("Terminal input frames refused by a per-subscriber rate limit.");
    reveal_strlit("relay_resize_requests_forwarded_total");
    reveal_strlit("Subscriber resize requests forwarded to publishers.");
    lemma_scalar_is_proper(
        "relay_slow_consumer_disconnects_total"@,
        "Subscribers disconnected for exceeding their outbound queue bound."@,
        "counter"@,
        metrics.slow_consumer_disconnects@ as int,
    );
    lemma_scalar_is_proper(
        "relay_oversized_frames_rejected_total"@,
        "Frames rejected for exceeding the negotiated frame size."@,
        "counter"@,
        metrics.oversized_frames_rejected@ as int,
    );
    lemma_scalar_is_proper(
        "relay_backpressure_waits_total"@,
        "Times a publisher waited for a checkpoint before its frame was accepted."@,
        "counter"@,
        metrics.backpressure_waits@ as int,
    );
    lemma_scalar_is_proper(
        "relay_backpressure_timeouts_total"@,
        "Times a publisher exceeded its unacknowledged window past the wait deadline."@,
        "counter"@,
        metrics.backpressure_timeouts@ as int,
    );
    lemma_scalar_is_proper(
        "relay_input_frames_delivered_total"@,
        "Terminal input frames delivered to publishers."@,
        "counter"@,
        metrics.input_frames_delivered@ as int,
    );
    lemma_scalar_is_proper(
        "relay_input_bytes_delivered_total"@,
        "Terminal input payload bytes delivered to publishers."@,
        "counter"@,
        metrics.input_bytes_delivered@ as int,
    );
    lemma_scalar_is_proper(
        "relay_input_frames_refused_total"@,
        "Terminal input frames refused, for any reason."@,
        "counter"@,
        metrics.input_frames_refused@ as int,
    );
    lemma_scalar_is_proper(
        "relay_input_rate_limited_total"@,
        "Terminal input frames refused by a per-subscriber rate limit."@,
        "counter"@,
        metrics.input_rate_limited@ as int,
    );
    lemma_scalar_is_proper(
        "relay_resize_requests_forwarded_total"@,
        "Subscriber resize requests forwarded to publishers."@,
        "counter"@,
        metrics.resize_requests_forwarded@ as int,
    );
}

#[verifier::spinoff_prover]
proof fn lemma_access_counters_are_proper(metrics: Metrics)
    ensures
        forall|i: int|
            0 <= i < metrics.access_counters().len() ==> is_proper(#[trigger] metrics.access_counters()[i]) && place(
                metrics.access_counters()[i].name,
            ) == 44 + i,
        metrics.access_counters().len() == 14,
{
    lemma_places();
    reveal_strlit("counter");
    reveal_strlit("relay_auth_failures_total");
    reveal_strlit("Failed authentication attempts.");
    reveal_strlit("relay_auth_successes_total");
    reveal_strlit("Successful authentications.");
    reveal_strlit("relay_challenges_issued_total");
    reveal_strlit("Proof-of-possession challenges issued.");
    reveal_strlit("relay_challenges_consumed_total");
    reveal_strlit("Challenges consumed by a verification attempt.");
    reveal_strlit("relay_rate_limited_requests_total");
    reveal_strlit("Requests rejected by a rate limit.");
    reveal_strlit("relay_device_revocations_total");
    reveal_strlit("Devices revoked.");
    reveal_strlit("relay_revocation_enforced_disconnects_total");
    reveal_strlit("Connections closed because their principal was revoked.");
    reveal_strlit("relay_storage_errors_total");
    reveal_strlit("Durable storage errors.");
    reveal_strlit("relay_retention_terminals_deleted_total");
    reveal_strlit("Closed terminals deleted after their retention period.");
    reveal_strlit("relay_quota_terminals_deleted_total");
    reveal_strlit("Closed terminals deleted to satisfy the storage quota.");
    reveal_strlit("relay_settings_reload_failures_total");
    reveal_strlit("Committed settings revisions that could not be applied.");
    reveal_strlit("relay_listener_rebinds_total");
    reveal_strlit("Listener rebinds performed.");
    reveal_strlit("relay_http_requests_total");
    reveal_strlit("HTTP requests served.");
    reveal_strlit("relay_http_requests_failed_total");
    reveal_strlit("HTTP requests answered with an error status.");
    lemma_scalar_is_proper(
        "relay_auth_failures_total"@,
        "Failed authentication attempts."@,
        "counter"@,
        metrics.auth_failures@ as int,
    );
    lemma_scalar_is_proper(
        "relay_auth_successes_total"@,
        "Successful authentications."@,
        "counter"@,
        metrics.auth_successes@ as int,
    );
    lemma_scalar_is_proper(
        "relay_challenges_issued_total"@,
        "Proof-of-possession challenges issued."@,
        "counter"@,
        metrics.challenges_issued@ as int,
    );
    lemma_scalar_is_proper(
        "relay_challenges_consumed_total"@,
        "Challenges consumed by a verification attempt."@,
        "counter"@,
        metrics.challenges_consumed@ as int,
    );
    lemma_scalar_is_proper(
        "relay_rate_limited_requests_total"@,
        "Requests rejected by a rate limit."@,
        "counter"@,
        metrics.rate_limited_requests@ as int,
    );
    lemma_scalar_is_proper(
        "relay_device_revocations_total"@,
        "Devices revoked."@,
        "counter"@,
        metrics.device_revocations@ as int,
    );
    lemma_scalar_is_proper(
        "relay_revocation_enforced_disconnects_total"@,
        "Connections closed because their principal was revoked."@,
        "counter"@,
        metrics.revocation_enforced_disconnects@ as int,
    );
    lemma_scalar_is_proper(
        "relay_storage_errors_total"@,
        "Durable storage errors."@,
        "counter"@,
        metrics.storage_errors@ as int,
    );
    lemma_scalar_is_proper(
        "relay_retention_terminals_deleted_total"@,
        "Closed terminals deleted after their retention period."@,
        "counter"@,
        metrics.retention_terminals_deleted@ as int,
    );
    lemma_scalar_is_proper(
        "relay_quota_terminals_deleted_total"@,
        "Closed terminals deleted to satisfy the storage quota."@,
        "counter"@,
        metrics.quota_terminals_deleted@ as int,
    );
    lemma_scalar_is_proper(
        "relay_settings_reload_failures_total"@,
        "Committed settings revisions that could not be applied."@,
        "counter"@,
        metrics.settings_reload_failures@ as int,
    );
    lemma_scalar_is_proper(
        "relay_listener_rebinds_total"@,
        "Listener rebinds performed."@,
        "counter"@,
        metrics.listener_rebinds@ as int,
    );
    lemma_scalar_is_proper(
        "relay_http_requests_total"@,
        "HTTP requests served."@,
        "counter"@,
        metrics.http_requests@ as int,
    );
    lemma_scalar_is_proper(
        "relay_http_requests_failed_total"@,
        "HTTP requests answered with an error status."@,
        "counter"@,
        metrics.http_requests_failed@ as int,
    );
}

#[verifier::spinoff_prover]
proof fn lemma_histograms_are_proper(metrics: Metrics, sums: Seq<Seq<char>>)
    requires
        metrics.wf(),
        sums.len() == 4,
        forall|i: int| 0 <= i < sums.len() ==> is_one_line(#[trigger] sums[i]),
    ensures
        forall|i: int|
            0 <= i < metrics.histograms(sums).len() ==> is_proper(#[trigger] metrics.histograms(sums)[i]) && place(
                metrics.histograms(sums)[i].name,
            ) == 58 + i,
        metrics.histograms(sums).len() == 4,
{
    lemma_places();
    reveal_strlit("histogram");
    reveal_strlit("relay_checkpoint_batch_bytes");
    reveal_strlit("Output bytes per checkpoint transaction.");
    reveal_strlit("relay_checkpoint_batch_age_seconds");
    reveal_strlit("Age of the oldest dirty byte when a checkpoint committed.");
    reveal_strlit("relay_checkpoint_terminals_per_batch");
    reveal_strlit("Terminals coalesced into one checkpoint transaction.");
    reveal_strlit("relay_http_request_seconds");
    reveal_strlit("HTTP request latency.");
    lemma_family_is_proper(
        metrics.checkpoint_batch_bytes,
        "relay_checkpoint_batch_bytes"@,
        "Output bytes per checkpoint transaction."@,
        sums[0],
    );
    lemma_family_is_proper(
        metrics.checkpoint_batch_age_seconds,
        "relay_checkpoint_batch_age_seconds"@,
        "Age of the oldest dirty byte when a checkpoint committed."@,
        sums[1],
    );
    lemma_family_is_proper(
        metrics.checkpoint_terminals_per_batch,
        "relay_checkpoint_terminals_per_batch"@,
        "Terminals coalesced into one checkpoint transaction."@,
        sums[2],
    );
    lemma_family_is_proper(
        metrics.http_request_seconds,
        "relay_http_request_seconds"@,
        "HTTP request latency."@,
        sums[3],
    );
}

/// The names of the metrics differ, and each is printed properly.
proof fn lemma_families_are_proper(metrics: Metrics, sums: Seq<Seq<char>>)
    requires
        metrics.wf(),
        sums.len() == 4,
        forall|i: int| 0 <= i < sums.len() ==> is_one_line(#[trigger] sums[i]),
    ensures
        forall|i: int|
            0 <= i < metrics.families(sums).len() ==> is_proper(
                #[trigger] metrics.families(sums)[i],
            ) && place(metrics.families(sums)[i].name) == i,
{
    lemma_gauges_are_proper(metrics);
    lemma_terminal_counters_are_proper(metrics);
    lemma_output_counters_are_proper(metrics);
    lemma_limit_counters_are_proper(metrics);
    lemma_access_counters_are_proper(metrics);
    lemma_histograms_are_proper(metrics, sums);
    let list = metrics.families(sums);
    assert forall|i: int| 0 <= i < list.len() implies is_proper(#[trigger] list[i]) && place(
        list[i].name,
    ) == i by {
        if i < 13 {
            assert(list[i] == metrics.gauges()[i - 0]);
        } else if i < 23 {
            assert(list[i] == metrics.terminal_counters()[i - 13]);
        } else if i < 35 {
            assert(list[i] == metrics.output_counters()[i - 23]);
        } else if i < 44 {
            assert(list[i] == metrics.limit_counters()[i - 35]);
        } else if i < 58 {
            assert(list[i] == metrics.access_counters()[i - 44]);
        } else {
            assert(list[i] == metrics.histograms(sums)[i - 58]);
        }
    }
}

/// Every metric is printed with one heading that says what it is, directly behind it one
/// that says of what kind it is, and directly behind that its samples; no other line is a
/// heading of it. The only label anywhere is that of a histogram's bucket. The sums are
/// printed on one line.
pub proof fn law_metrics_are_headed_once(
    metrics: Metrics,
    sums: Seq<Seq<char>>,
    i: int,
    k: int,
)
    requires
        metrics.wf(),
        sums.len() == 4,
        forall|j: int| 0 <= j < sums.len() ==> is_one_line(#[trigger] sums[j]),
        0 <= i < metrics.families(sums).len(),
        0 <= k < all_lines(metrics.families(sums)).len(),
    ensures
        ({
            let list = metrics.families(sums);
            let lines = all_lines(list);
            let first = start(list, i);
            &&& metrics.exposition(sums) == unlines(lines)
            &&& is_one_line(lines[k])
            &&& is_help(lines[k], list[i].name) <==> k == first
            &&& is_type(lines[k], list[i].name) <==> k == first + 1
            &&& first + 2 <= k < start(list, i + 1) ==> is_sample(lines[k], list[i].name)
            &&& list[i].samples.len() > 0
            &&& start(list, i + 1) == first + 2 + list[i].samples.len()
        }),
{
    let list = metrics.families(sums);
    lemma_families_are_proper(metrics, sums);
    assert forall|j: int, l: int|
        0 <= j < list.len() && 0 <= l < list.len() && (#[trigger] list[j]).name == (
        #[trigger] list[l]).name implies j == l by {
        assert(place(list[j].name) == j && place(list[l].name) == l);
    }
    lemma_headed_once(list, i, k);
    lemma_families_have_samples(metrics, sums, i);
}

proof fn lemma_families_have_samples(metrics: Metrics, sums: Seq<Seq<char>>, i: int)
    requires
        0 <= i < metrics.families(sums).len(),
    ensures
        metrics.families(sums)[i].samples.len() > 0,
{
    let scalars = metrics.families(sums).len() - 4;
    let list = metrics.families(sums);
    assert(metrics.histograms(sums).len() == 4);
    if i >= scalars {
        assert(list[i] == metrics.histograms(sums)[i - scalars]);
    }
}

} // verus!
