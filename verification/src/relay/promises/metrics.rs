//! Every metric shows its own value.

use crate::relay::metrics::family::{
    all_lines, lemma_all_lines, scalar, type_line, unlines, Family,
};
use crate::relay::metrics::{bucket_sample, Counted, Metrics};
use crate::text::{decimal, signed_decimal, texts};
use vstd::prelude::*;

verus! {

/// A text has this line: it stands between the beginning or the end of a line and the end
/// of a line.
pub open spec fn has_line(text: Seq<char>, line: Seq<char>) -> bool {
    exists|before: Seq<Seq<char>>, after: Seq<Seq<char>>| #[trigger]
        text_with(before, line, after) == text
}

/// A line with others before and behind it.
pub open spec fn text_with(before: Seq<Seq<char>>, line: Seq<char>, after: Seq<Seq<char>>) -> Seq<
    char,
> {
    unlines(before + seq![line] + after)
}

/// A metric is printed as one of this kind, with this value.
pub open spec fn shows(text: Seq<char>, name: Seq<char>, kind: Seq<char>, value: int) -> bool {
    has_line(text, "# TYPE "@ + name + " "@ + kind) && has_line(
        text,
        name + " "@ + signed_decimal(value),
    )
}

proof fn lemma_line_of(lines: Seq<Seq<char>>, k: int)
    requires
        0 <= k < lines.len(),
    ensures
        has_line(unlines(lines), lines[k]),
{
    let before = lines.take(k);
    let after = lines.skip(k + 1);
    assert(before + seq![lines[k]] + after =~= lines);
    assert(text_with(before, lines[k], after) == unlines(lines));
}

proof fn lemma_family_lines(list: Seq<Family>, i: int, k: int)
    requires
        0 <= i < list.len(),
        0 <= k < list[i].lines().len(),
    ensures
        has_line(unlines(all_lines(list)), list[i].lines()[k]),
{
    let front = list.take(i);
    let own = seq![list[i]];
    let back = list.skip(i + 1);
    assert(front + own + back =~= list);
    lemma_all_lines(front + own, back);
    lemma_all_lines(front, own);
    assert(own.drop_last() =~= Seq::empty());
    assert(all_lines(own) =~= list[i].lines()) by {
        reveal_with_fuel(all_lines, 2);
    }
    let lines = all_lines(list);
    let at = all_lines(front).len() + k;
    assert(lines[at] == list[i].lines()[k]);
    lemma_line_of(lines, at);
}

proof fn lemma_scalar_shows(list: Seq<Family>, i: int, name: Seq<char>, help: Seq<char>, kind: Seq<char>, value: int)
    requires
        0 <= i < list.len(),
        list[i] == scalar(name, help, kind, value),
    ensures
        shows(unlines(all_lines(list)), name, kind, value),
{
    lemma_family_lines(list, i, 1);
    lemma_family_lines(list, i, 2);
    assert(list[i].lines()[1] == type_line(name, kind));
    assert(list[i].lines()[2] == name + " "@ + signed_decimal(value));
}

/// What there is at the moment is shown as gauges, each with its own value.
pub proof fn law_gauges_show_what_there_is(metrics: Metrics, sums: &[String], text: String)
    requires
        metrics.wf(),
        sums@.len() == 4,
        call_ensures(Metrics::render, (&metrics, sums), text),
    ensures
        shows(text@, "relay_publisher_connections"@, "gauge"@, metrics.publisher_connections@ as int),
        shows(text@, "relay_mirror_connections"@, "gauge"@, metrics.mirror_connections@ as int),
        shows(text@, "relay_terminals_open"@, "gauge"@, metrics.terminals_open@ as int),
        shows(text@, "relay_terminal_open_requests_pending"@, "gauge"@, metrics.terminal_open_requests_pending@ as int),
        shows(text@, "relay_terminals_resident"@, "gauge"@, metrics.terminals_resident@ as int),
        shows(text@, "relay_replay_bytes_resident"@, "gauge"@, metrics.replay_bytes_resident@ as int),
        shows(text@, "relay_dirty_bytes"@, "gauge"@, metrics.dirty_bytes@ as int),
        shows(text@, "relay_durable_offset_lag_bytes"@, "gauge"@, metrics.durable_offset_lag_bytes@ as int),
        shows(text@, "relay_storage_bytes"@, "gauge"@, metrics.storage_bytes@ as int),
        shows(text@, "relay_storage_unavailable"@, "gauge"@, metrics.storage_unavailable@ as int),
        shows(text@, "relay_settings_revision"@, "gauge"@, metrics.settings_revision@ as int),
        shows(text@, "relay_settings_committed_revision"@, "gauge"@, metrics.settings_committed_revision@ as int),
        shows(text@, "relay_settings_propagation_lag_revisions"@, "gauge"@, metrics.settings_committed_revision@ - metrics.settings_revision@),
{
    let list = metrics.families(texts(sums@));
    let at: int = 0;
    let own = metrics.gauges();
    assert forall|i: int| 0 <= i < own.len() implies list[at + i] == #[trigger] own[i] by {}
    assert(own[0] == scalar("relay_publisher_connections"@, own[0].help, "gauge"@, metrics.publisher_connections@ as int));
    lemma_scalar_shows(list, at + 0, "relay_publisher_connections"@, own[0].help, "gauge"@, metrics.publisher_connections@ as int);
    assert(own[1] == scalar("relay_mirror_connections"@, own[1].help, "gauge"@, metrics.mirror_connections@ as int));
    lemma_scalar_shows(list, at + 1, "relay_mirror_connections"@, own[1].help, "gauge"@, metrics.mirror_connections@ as int);
    assert(own[2] == scalar("relay_terminals_open"@, own[2].help, "gauge"@, metrics.terminals_open@ as int));
    lemma_scalar_shows(list, at + 2, "relay_terminals_open"@, own[2].help, "gauge"@, metrics.terminals_open@ as int);
    assert(own[3] == scalar("relay_terminal_open_requests_pending"@, own[3].help, "gauge"@, metrics.terminal_open_requests_pending@ as int));
    lemma_scalar_shows(list, at + 3, "relay_terminal_open_requests_pending"@, own[3].help, "gauge"@, metrics.terminal_open_requests_pending@ as int);
    assert(own[4] == scalar("relay_terminals_resident"@, own[4].help, "gauge"@, metrics.terminals_resident@ as int));
    lemma_scalar_shows(list, at + 4, "relay_terminals_resident"@, own[4].help, "gauge"@, metrics.terminals_resident@ as int);
    assert(own[5] == scalar("relay_replay_bytes_resident"@, own[5].help, "gauge"@, metrics.replay_bytes_resident@ as int));
    lemma_scalar_shows(list, at + 5, "relay_replay_bytes_resident"@, own[5].help, "gauge"@, metrics.replay_bytes_resident@ as int);
    assert(own[6] == scalar("relay_dirty_bytes"@, own[6].help, "gauge"@, metrics.dirty_bytes@ as int));
    lemma_scalar_shows(list, at + 6, "relay_dirty_bytes"@, own[6].help, "gauge"@, metrics.dirty_bytes@ as int);
    assert(own[7] == scalar("relay_durable_offset_lag_bytes"@, own[7].help, "gauge"@, metrics.durable_offset_lag_bytes@ as int));
    lemma_scalar_shows(list, at + 7, "relay_durable_offset_lag_bytes"@, own[7].help, "gauge"@, metrics.durable_offset_lag_bytes@ as int);
    assert(own[8] == scalar("relay_storage_bytes"@, own[8].help, "gauge"@, metrics.storage_bytes@ as int));
    lemma_scalar_shows(list, at + 8, "relay_storage_bytes"@, own[8].help, "gauge"@, metrics.storage_bytes@ as int);
    assert(own[9] == scalar("relay_storage_unavailable"@, own[9].help, "gauge"@, metrics.storage_unavailable@ as int));
    lemma_scalar_shows(list, at + 9, "relay_storage_unavailable"@, own[9].help, "gauge"@, metrics.storage_unavailable@ as int);
    assert(own[10] == scalar("relay_settings_revision"@, own[10].help, "gauge"@, metrics.settings_revision@ as int));
    lemma_scalar_shows(list, at + 10, "relay_settings_revision"@, own[10].help, "gauge"@, metrics.settings_revision@ as int);
    assert(own[11] == scalar("relay_settings_committed_revision"@, own[11].help, "gauge"@, metrics.settings_committed_revision@ as int));
    lemma_scalar_shows(list, at + 11, "relay_settings_committed_revision"@, own[11].help, "gauge"@, metrics.settings_committed_revision@ as int);
    assert(own[12] == scalar("relay_settings_propagation_lag_revisions"@, own[12].help, "gauge"@, metrics.settings_committed_revision@ - metrics.settings_revision@));
    lemma_scalar_shows(list, at + 12, "relay_settings_propagation_lag_revisions"@, own[12].help, "gauge"@, metrics.settings_committed_revision@ - metrics.settings_revision@);
}

/// What became of connections, terminals and requests for terminals is shown as counters,
/// each with its own value.
pub proof fn law_terminals_are_counted_by_name(metrics: Metrics, sums: &[String], text: String)
    requires
        metrics.wf(),
        sums@.len() == 4,
        call_ensures(Metrics::render, (&metrics, sums), text),
    ensures
        shows(text@, "relay_publisher_connections_total"@, "counter"@, metrics.publisher_connections_total@ as int),
        shows(text@, "relay_mirror_connections_total"@, "counter"@, metrics.mirror_connections_total@ as int),
        shows(text@, "relay_publishers_superseded_total"@, "counter"@, metrics.publishers_superseded@ as int),
        shows(text@, "relay_terminals_opened_total"@, "counter"@, metrics.terminals_opened_total@ as int),
        shows(text@, "relay_terminals_closed_total"@, "counter"@, metrics.terminals_closed_total@ as int),
        shows(text@, "relay_terminal_open_requests_opened_total"@, "counter"@, metrics.terminal_open_requests_opened@ as int),
        shows(text@, "relay_terminal_open_requests_declined_total"@, "counter"@, metrics.terminal_open_requests_declined@ as int),
        shows(text@, "relay_terminal_open_requests_unavailable_total"@, "counter"@, metrics.terminal_open_requests_unavailable@ as int),
        shows(text@, "relay_terminal_open_requests_timeout_total"@, "counter"@, metrics.terminal_open_requests_timeout@ as int),
        shows(text@, "relay_terminal_open_requests_refused_total"@, "counter"@, metrics.terminal_open_requests_refused@ as int),
{
    let list = metrics.families(texts(sums@));
    let front = metrics.gauges();
    let at: int = front.len() as int;
    let own = metrics.terminal_counters();
    assert forall|i: int| 0 <= i < own.len() implies list[at + i] == #[trigger] own[i] by {}
    assert(own[0] == scalar("relay_publisher_connections_total"@, own[0].help, "counter"@, metrics.publisher_connections_total@ as int));
    lemma_scalar_shows(list, at + 0, "relay_publisher_connections_total"@, own[0].help, "counter"@, metrics.publisher_connections_total@ as int);
    assert(own[1] == scalar("relay_mirror_connections_total"@, own[1].help, "counter"@, metrics.mirror_connections_total@ as int));
    lemma_scalar_shows(list, at + 1, "relay_mirror_connections_total"@, own[1].help, "counter"@, metrics.mirror_connections_total@ as int);
    assert(own[2] == scalar("relay_publishers_superseded_total"@, own[2].help, "counter"@, metrics.publishers_superseded@ as int));
    lemma_scalar_shows(list, at + 2, "relay_publishers_superseded_total"@, own[2].help, "counter"@, metrics.publishers_superseded@ as int);
    assert(own[3] == scalar("relay_terminals_opened_total"@, own[3].help, "counter"@, metrics.terminals_opened_total@ as int));
    lemma_scalar_shows(list, at + 3, "relay_terminals_opened_total"@, own[3].help, "counter"@, metrics.terminals_opened_total@ as int);
    assert(own[4] == scalar("relay_terminals_closed_total"@, own[4].help, "counter"@, metrics.terminals_closed_total@ as int));
    lemma_scalar_shows(list, at + 4, "relay_terminals_closed_total"@, own[4].help, "counter"@, metrics.terminals_closed_total@ as int);
    assert(own[5] == scalar("relay_terminal_open_requests_opened_total"@, own[5].help, "counter"@, metrics.terminal_open_requests_opened@ as int));
    lemma_scalar_shows(list, at + 5, "relay_terminal_open_requests_opened_total"@, own[5].help, "counter"@, metrics.terminal_open_requests_opened@ as int);
    assert(own[6] == scalar("relay_terminal_open_requests_declined_total"@, own[6].help, "counter"@, metrics.terminal_open_requests_declined@ as int));
    lemma_scalar_shows(list, at + 6, "relay_terminal_open_requests_declined_total"@, own[6].help, "counter"@, metrics.terminal_open_requests_declined@ as int);
    assert(own[7] == scalar("relay_terminal_open_requests_unavailable_total"@, own[7].help, "counter"@, metrics.terminal_open_requests_unavailable@ as int));
    lemma_scalar_shows(list, at + 7, "relay_terminal_open_requests_unavailable_total"@, own[7].help, "counter"@, metrics.terminal_open_requests_unavailable@ as int);
    assert(own[8] == scalar("relay_terminal_open_requests_timeout_total"@, own[8].help, "counter"@, metrics.terminal_open_requests_timeout@ as int));
    lemma_scalar_shows(list, at + 8, "relay_terminal_open_requests_timeout_total"@, own[8].help, "counter"@, metrics.terminal_open_requests_timeout@ as int);
    assert(own[9] == scalar("relay_terminal_open_requests_refused_total"@, own[9].help, "counter"@, metrics.terminal_open_requests_refused@ as int));
    lemma_scalar_shows(list, at + 9, "relay_terminal_open_requests_refused_total"@, own[9].help, "counter"@, metrics.terminal_open_requests_refused@ as int);
}

/// What became of output is shown as counters, each with its own value.
pub proof fn law_output_is_counted_by_name(metrics: Metrics, sums: &[String], text: String)
    requires
        metrics.wf(),
        sums@.len() == 4,
        call_ensures(Metrics::render, (&metrics, sums), text),
    ensures
        shows(text@, "relay_output_bytes_accepted_total"@, "counter"@, metrics.output_bytes_accepted@ as int),
        shows(text@, "relay_output_bytes_delivered_total"@, "counter"@, metrics.output_bytes_delivered@ as int),
        shows(text@, "relay_output_bytes_replayed_total"@, "counter"@, metrics.output_bytes_replayed@ as int),
        shows(text@, "relay_evicted_bytes_total"@, "counter"@, metrics.evicted_bytes@ as int),
        shows(text@, "relay_evictions_total"@, "counter"@, metrics.evictions@ as int),
        shows(text@, "relay_checkpoint_transactions_total"@, "counter"@, metrics.checkpoint_transactions@ as int),
        shows(text@, "relay_checkpoint_failures_total"@, "counter"@, metrics.checkpoint_failures@ as int),
        shows(text@, "relay_checkpoint_rows_written_total"@, "counter"@, metrics.checkpoint_rows_written@ as int),
        shows(text@, "relay_checkpoint_frames_coalesced_total"@, "counter"@, metrics.checkpoint_frames_coalesced@ as int),
        shows(text@, "relay_offset_mismatches_total"@, "counter"@, metrics.offset_mismatches@ as int),
        shows(text@, "relay_offset_ahead_rejections_total"@, "counter"@, metrics.offset_ahead_rejections@ as int),
        shows(text@, "relay_replay_gaps_total"@, "counter"@, metrics.replay_gaps@ as int),
{
    let list = metrics.families(texts(sums@));
    let front = metrics.gauges() + metrics.terminal_counters();
    let at: int = front.len() as int;
    let own = metrics.output_counters();
    assert forall|i: int| 0 <= i < own.len() implies list[at + i] == #[trigger] own[i] by {}
    assert(own[0] == scalar("relay_output_bytes_accepted_total"@, own[0].help, "counter"@, metrics.output_bytes_accepted@ as int));
    lemma_scalar_shows(list, at + 0, "relay_output_bytes_accepted_total"@, own[0].help, "counter"@, metrics.output_bytes_accepted@ as int);
    assert(own[1] == scalar("relay_output_bytes_delivered_total"@, own[1].help, "counter"@, metrics.output_bytes_delivered@ as int));
    lemma_scalar_shows(list, at + 1, "relay_output_bytes_delivered_total"@, own[1].help, "counter"@, metrics.output_bytes_delivered@ as int);
    assert(own[2] == scalar("relay_output_bytes_replayed_total"@, own[2].help, "counter"@, metrics.output_bytes_replayed@ as int));
    lemma_scalar_shows(list, at + 2, "relay_output_bytes_replayed_total"@, own[2].help, "counter"@, metrics.output_bytes_replayed@ as int);
    assert(own[3] == scalar("relay_evicted_bytes_total"@, own[3].help, "counter"@, metrics.evicted_bytes@ as int));
    lemma_scalar_shows(list, at + 3, "relay_evicted_bytes_total"@, own[3].help, "counter"@, metrics.evicted_bytes@ as int);
    assert(own[4] == scalar("relay_evictions_total"@, own[4].help, "counter"@, metrics.evictions@ as int));
    lemma_scalar_shows(list, at + 4, "relay_evictions_total"@, own[4].help, "counter"@, metrics.evictions@ as int);
    assert(own[5] == scalar("relay_checkpoint_transactions_total"@, own[5].help, "counter"@, metrics.checkpoint_transactions@ as int));
    lemma_scalar_shows(list, at + 5, "relay_checkpoint_transactions_total"@, own[5].help, "counter"@, metrics.checkpoint_transactions@ as int);
    assert(own[6] == scalar("relay_checkpoint_failures_total"@, own[6].help, "counter"@, metrics.checkpoint_failures@ as int));
    lemma_scalar_shows(list, at + 6, "relay_checkpoint_failures_total"@, own[6].help, "counter"@, metrics.checkpoint_failures@ as int);
    assert(own[7] == scalar("relay_checkpoint_rows_written_total"@, own[7].help, "counter"@, metrics.checkpoint_rows_written@ as int));
    lemma_scalar_shows(list, at + 7, "relay_checkpoint_rows_written_total"@, own[7].help, "counter"@, metrics.checkpoint_rows_written@ as int);
    assert(own[8] == scalar("relay_checkpoint_frames_coalesced_total"@, own[8].help, "counter"@, metrics.checkpoint_frames_coalesced@ as int));
    lemma_scalar_shows(list, at + 8, "relay_checkpoint_frames_coalesced_total"@, own[8].help, "counter"@, metrics.checkpoint_frames_coalesced@ as int);
    assert(own[9] == scalar("relay_offset_mismatches_total"@, own[9].help, "counter"@, metrics.offset_mismatches@ as int));
    lemma_scalar_shows(list, at + 9, "relay_offset_mismatches_total"@, own[9].help, "counter"@, metrics.offset_mismatches@ as int);
    assert(own[10] == scalar("relay_offset_ahead_rejections_total"@, own[10].help, "counter"@, metrics.offset_ahead_rejections@ as int));
    lemma_scalar_shows(list, at + 10, "relay_offset_ahead_rejections_total"@, own[10].help, "counter"@, metrics.offset_ahead_rejections@ as int);
    assert(own[11] == scalar("relay_replay_gaps_total"@, own[11].help, "counter"@, metrics.replay_gaps@ as int));
    lemma_scalar_shows(list, at + 11, "relay_replay_gaps_total"@, own[11].help, "counter"@, metrics.replay_gaps@ as int);
}

/// What ran into a limit, and what input came, is shown as counters, each with its own
/// value.
pub proof fn law_limits_are_counted_by_name(metrics: Metrics, sums: &[String], text: String)
    requires
        metrics.wf(),
        sums@.len() == 4,
        call_ensures(Metrics::render, (&metrics, sums), text),
    ensures
        shows(text@, "relay_slow_consumer_disconnects_total"@, "counter"@, metrics.slow_consumer_disconnects@ as int),
        shows(text@, "relay_oversized_frames_rejected_total"@, "counter"@, metrics.oversized_frames_rejected@ as int),
        shows(text@, "relay_backpressure_waits_total"@, "counter"@, metrics.backpressure_waits@ as int),
        shows(text@, "relay_backpressure_timeouts_total"@, "counter"@, metrics.backpressure_timeouts@ as int),
        shows(text@, "relay_input_frames_delivered_total"@, "counter"@, metrics.input_frames_delivered@ as int),
        shows(text@, "relay_input_bytes_delivered_total"@, "counter"@, metrics.input_bytes_delivered@ as int),
        shows(text@, "relay_input_frames_refused_total"@, "counter"@, metrics.input_frames_refused@ as int),
        shows(text@, "relay_input_rate_limited_total"@, "counter"@, metrics.input_rate_limited@ as int),
        shows(text@, "relay_resize_requests_forwarded_total"@, "counter"@, metrics.resize_requests_forwarded@ as int),
{
    let list = metrics.families(texts(sums@));
    let front = metrics.gauges() + metrics.terminal_counters() + metrics.output_counters();
    let at: int = front.len() as int;
    let own = metrics.limit_counters();
    assert forall|i: int| 0 <= i < own.len() implies list[at + i] == #[trigger] own[i] by {}
    assert(own[0] == scalar("relay_slow_consumer_disconnects_total"@, own[0].help, "counter"@, metrics.slow_consumer_disconnects@ as int));
    lemma_scalar_shows(list, at + 0, "relay_slow_consumer_disconnects_total"@, own[0].help, "counter"@, metrics.slow_consumer_disconnects@ as int);
    assert(own[1] == scalar("relay_oversized_frames_rejected_total"@, own[1].help, "counter"@, metrics.oversized_frames_rejected@ as int));
    lemma_scalar_shows(list, at + 1, "relay_oversized_frames_rejected_total"@, own[1].help, "counter"@, metrics.oversized_frames_rejected@ as int);
    assert(own[2] == scalar("relay_backpressure_waits_total"@, own[2].help, "counter"@, metrics.backpressure_waits@ as int));
    lemma_scalar_shows(list, at + 2, "relay_backpressure_waits_total"@, own[2].help, "counter"@, metrics.backpressure_waits@ as int);
    assert(own[3] == scalar("relay_backpressure_timeouts_total"@, own[3].help, "counter"@, metrics.backpressure_timeouts@ as int));
    lemma_scalar_shows(list, at + 3, "relay_backpressure_timeouts_total"@, own[3].help, "counter"@, metrics.backpressure_timeouts@ as int);
    assert(own[4] == scalar("relay_input_frames_delivered_total"@, own[4].help, "counter"@, metrics.input_frames_delivered@ as int));
    lemma_scalar_shows(list, at + 4, "relay_input_frames_delivered_total"@, own[4].help, "counter"@, metrics.input_frames_delivered@ as int);
    assert(own[5] == scalar("relay_input_bytes_delivered_total"@, own[5].help, "counter"@, metrics.input_bytes_delivered@ as int));
    lemma_scalar_shows(list, at + 5, "relay_input_bytes_delivered_total"@, own[5].help, "counter"@, metrics.input_bytes_delivered@ as int);
    assert(own[6] == scalar("relay_input_frames_refused_total"@, own[6].help, "counter"@, metrics.input_frames_refused@ as int));
    lemma_scalar_shows(list, at + 6, "relay_input_frames_refused_total"@, own[6].help, "counter"@, metrics.input_frames_refused@ as int);
    assert(own[7] == scalar("relay_input_rate_limited_total"@, own[7].help, "counter"@, metrics.input_rate_limited@ as int));
    lemma_scalar_shows(list, at + 7, "relay_input_rate_limited_total"@, own[7].help, "counter"@, metrics.input_rate_limited@ as int);
    assert(own[8] == scalar("relay_resize_requests_forwarded_total"@, own[8].help, "counter"@, metrics.resize_requests_forwarded@ as int));
    lemma_scalar_shows(list, at + 8, "relay_resize_requests_forwarded_total"@, own[8].help, "counter"@, metrics.resize_requests_forwarded@ as int);
}

/// Who got in and who did not, and what the relay did of itself, is shown as counters, each
/// with its own value.
pub proof fn law_access_is_counted_by_name(metrics: Metrics, sums: &[String], text: String)
    requires
        metrics.wf(),
        sums@.len() == 4,
        call_ensures(Metrics::render, (&metrics, sums), text),
    ensures
        shows(text@, "relay_auth_failures_total"@, "counter"@, metrics.auth_failures@ as int),
        shows(text@, "relay_auth_successes_total"@, "counter"@, metrics.auth_successes@ as int),
        shows(text@, "relay_challenges_issued_total"@, "counter"@, metrics.challenges_issued@ as int),
        shows(text@, "relay_challenges_consumed_total"@, "counter"@, metrics.challenges_consumed@ as int),
        shows(text@, "relay_rate_limited_requests_total"@, "counter"@, metrics.rate_limited_requests@ as int),
        shows(text@, "relay_device_revocations_total"@, "counter"@, metrics.device_revocations@ as int),
        shows(text@, "relay_revocation_enforced_disconnects_total"@, "counter"@, metrics.revocation_enforced_disconnects@ as int),
        shows(text@, "relay_storage_errors_total"@, "counter"@, metrics.storage_errors@ as int),
        shows(text@, "relay_retention_terminals_deleted_total"@, "counter"@, metrics.retention_terminals_deleted@ as int),
        shows(text@, "relay_quota_terminals_deleted_total"@, "counter"@, metrics.quota_terminals_deleted@ as int),
        shows(text@, "relay_settings_reload_failures_total"@, "counter"@, metrics.settings_reload_failures@ as int),
        shows(text@, "relay_listener_rebinds_total"@, "counter"@, metrics.listener_rebinds@ as int),
        shows(text@, "relay_http_requests_total"@, "counter"@, metrics.http_requests@ as int),
        shows(text@, "relay_http_requests_failed_total"@, "counter"@, metrics.http_requests_failed@ as int),
{
    let list = metrics.families(texts(sums@));
    let front = metrics.gauges() + metrics.terminal_counters() + metrics.output_counters() + metrics.limit_counters();
    let at: int = front.len() as int;
    let own = metrics.access_counters();
    assert forall|i: int| 0 <= i < own.len() implies list[at + i] == #[trigger] own[i] by {}
    assert(own[0] == scalar("relay_auth_failures_total"@, own[0].help, "counter"@, metrics.auth_failures@ as int));
    lemma_scalar_shows(list, at + 0, "relay_auth_failures_total"@, own[0].help, "counter"@, metrics.auth_failures@ as int);
    assert(own[1] == scalar("relay_auth_successes_total"@, own[1].help, "counter"@, metrics.auth_successes@ as int));
    lemma_scalar_shows(list, at + 1, "relay_auth_successes_total"@, own[1].help, "counter"@, metrics.auth_successes@ as int);
    assert(own[2] == scalar("relay_challenges_issued_total"@, own[2].help, "counter"@, metrics.challenges_issued@ as int));
    lemma_scalar_shows(list, at + 2, "relay_challenges_issued_total"@, own[2].help, "counter"@, metrics.challenges_issued@ as int);
    assert(own[3] == scalar("relay_challenges_consumed_total"@, own[3].help, "counter"@, metrics.challenges_consumed@ as int));
    lemma_scalar_shows(list, at + 3, "relay_challenges_consumed_total"@, own[3].help, "counter"@, metrics.challenges_consumed@ as int);
    assert(own[4] == scalar("relay_rate_limited_requests_total"@, own[4].help, "counter"@, metrics.rate_limited_requests@ as int));
    lemma_scalar_shows(list, at + 4, "relay_rate_limited_requests_total"@, own[4].help, "counter"@, metrics.rate_limited_requests@ as int);
    assert(own[5] == scalar("relay_device_revocations_total"@, own[5].help, "counter"@, metrics.device_revocations@ as int));
    lemma_scalar_shows(list, at + 5, "relay_device_revocations_total"@, own[5].help, "counter"@, metrics.device_revocations@ as int);
    assert(own[6] == scalar("relay_revocation_enforced_disconnects_total"@, own[6].help, "counter"@, metrics.revocation_enforced_disconnects@ as int));
    lemma_scalar_shows(list, at + 6, "relay_revocation_enforced_disconnects_total"@, own[6].help, "counter"@, metrics.revocation_enforced_disconnects@ as int);
    assert(own[7] == scalar("relay_storage_errors_total"@, own[7].help, "counter"@, metrics.storage_errors@ as int));
    lemma_scalar_shows(list, at + 7, "relay_storage_errors_total"@, own[7].help, "counter"@, metrics.storage_errors@ as int);
    assert(own[8] == scalar("relay_retention_terminals_deleted_total"@, own[8].help, "counter"@, metrics.retention_terminals_deleted@ as int));
    lemma_scalar_shows(list, at + 8, "relay_retention_terminals_deleted_total"@, own[8].help, "counter"@, metrics.retention_terminals_deleted@ as int);
    assert(own[9] == scalar("relay_quota_terminals_deleted_total"@, own[9].help, "counter"@, metrics.quota_terminals_deleted@ as int));
    lemma_scalar_shows(list, at + 9, "relay_quota_terminals_deleted_total"@, own[9].help, "counter"@, metrics.quota_terminals_deleted@ as int);
    assert(own[10] == scalar("relay_settings_reload_failures_total"@, own[10].help, "counter"@, metrics.settings_reload_failures@ as int));
    lemma_scalar_shows(list, at + 10, "relay_settings_reload_failures_total"@, own[10].help, "counter"@, metrics.settings_reload_failures@ as int);
    assert(own[11] == scalar("relay_listener_rebinds_total"@, own[11].help, "counter"@, metrics.listener_rebinds@ as int));
    lemma_scalar_shows(list, at + 11, "relay_listener_rebinds_total"@, own[11].help, "counter"@, metrics.listener_rebinds@ as int);
    assert(own[12] == scalar("relay_http_requests_total"@, own[12].help, "counter"@, metrics.http_requests@ as int));
    lemma_scalar_shows(list, at + 12, "relay_http_requests_total"@, own[12].help, "counter"@, metrics.http_requests@ as int);
    assert(own[13] == scalar("relay_http_requests_failed_total"@, own[13].help, "counter"@, metrics.http_requests_failed@ as int));
    lemma_scalar_shows(list, at + 13, "relay_http_requests_failed_total"@, own[13].help, "counter"@, metrics.http_requests_failed@ as int);
}

/// A histogram is printed with its sum and its count, and with how many values lie up to
/// each of its bounds.
pub open spec fn shows_histogram(
    text: Seq<char>,
    name: Seq<char>,
    histogram: Counted,
    sum: Seq<char>,
) -> bool {
    &&& has_line(text, "# TYPE "@ + name + " histogram"@)
    &&& has_line(text, name + "_sum "@ + sum)
    &&& has_line(text, name + "_count "@ + decimal(histogram.count))
    &&& has_line(text, name + "_bucket{le=\"+Inf\"} "@ + decimal(histogram.count))
    &&& forall|i: int|
        0 <= i < histogram.bounds.len() ==> has_line(
            text,
            name + "_bucket{le=\""@ + (#[trigger] histogram.bounds[i]) + "\"} "@ + decimal(
                histogram.cumulative(i + 1),
            ),
        )
}

proof fn lemma_histogram_shows(
    list: Seq<Family>,
    at: int,
    name: Seq<char>,
    help: Seq<char>,
    histogram: Counted,
    sum: Seq<char>,
)
    requires
        0 <= at < list.len(),
        list[at] == histogram.family(name, help, sum),
        histogram.buckets.len() == histogram.bounds.len() + 1,
        histogram.cumulative(histogram.buckets.len() as int) == histogram.count,
    ensures
        shows_histogram(unlines(all_lines(list)), name, histogram, sum),
{
    let text = unlines(all_lines(list));
    let lines = list[at].lines();
    let size = histogram.bounds.len() as int;
    assert(lines.len() == size + 5);
    lemma_family_lines(list, at, 1);
    lemma_family_lines(list, at, size + 2);
    lemma_family_lines(list, at, size + 3);
    lemma_family_lines(list, at, size + 4);
    reveal_strlit(" ");
    reveal_strlit("histogram");
    reveal_strlit(" histogram");
    assert(lines[1] == type_line(name, "histogram"@));
    assert(type_line(name, "histogram"@) =~= "# TYPE "@ + name + " histogram"@);
    reveal_strlit("_bucket{le=\"");
    reveal_strlit("+Inf");
    reveal_strlit("\"} ");
    reveal_strlit("_bucket{le=\"+Inf\"} ");
    assert(lines[size + 2] == bucket_sample(name, "+Inf"@, histogram.cumulative(size + 1)));
    assert(lines[size + 2] =~= name + "_bucket{le=\"+Inf\"} "@ + decimal(histogram.count));
    assert(lines[size + 3] == name + "_sum "@ + sum);
    assert(lines[size + 4] == name + "_count "@ + decimal(histogram.count));
    assert forall|i: int| 0 <= i < histogram.bounds.len() implies has_line(
        text,
        name + "_bucket{le=\""@ + (#[trigger] histogram.bounds[i]) + "\"} "@ + decimal(
            histogram.cumulative(i + 1),
        ),
    ) by {
        lemma_family_lines(list, at, i + 2);
        assert(lines[i + 2] == histogram.bucket_samples(name, size)[i]);
    }
}

/// What is measured is shown as histograms, each with its own values.
pub proof fn law_measurements_are_shown_by_name(metrics: Metrics, sums: &[String], text: String)
    requires
        metrics.wf(),
        sums@.len() == 4,
        call_ensures(Metrics::render, (&metrics, sums), text),
    ensures
        shows_histogram(text@, "relay_checkpoint_batch_bytes"@, metrics.checkpoint_batch_bytes@, sums@[0]@),
        shows_histogram(text@, "relay_checkpoint_batch_age_seconds"@, metrics.checkpoint_batch_age_seconds@, sums@[1]@),
        shows_histogram(text@, "relay_checkpoint_terminals_per_batch"@, metrics.checkpoint_terminals_per_batch@, sums@[2]@),
        shows_histogram(text@, "relay_http_request_seconds"@, metrics.http_request_seconds@, sums@[3]@),
{
    let list = metrics.families(texts(sums@));
    let front = metrics.gauges() + metrics.terminal_counters() + metrics.output_counters() + metrics.limit_counters() + metrics.access_counters();
    let at: int = front.len() as int;
    let own = metrics.histograms(texts(sums@));
    assert forall|i: int| 0 <= i < own.len() implies list[at + i] == #[trigger] own[i] by {}
    assert(own[0] == metrics.checkpoint_batch_bytes@.family("relay_checkpoint_batch_bytes"@, own[0].help, sums@[0]@));
    lemma_histogram_shows(list, at + 0, "relay_checkpoint_batch_bytes"@, own[0].help, metrics.checkpoint_batch_bytes@, sums@[0]@);
    assert(own[1] == metrics.checkpoint_batch_age_seconds@.family("relay_checkpoint_batch_age_seconds"@, own[1].help, sums@[1]@));
    lemma_histogram_shows(list, at + 1, "relay_checkpoint_batch_age_seconds"@, own[1].help, metrics.checkpoint_batch_age_seconds@, sums@[1]@);
    assert(own[2] == metrics.checkpoint_terminals_per_batch@.family("relay_checkpoint_terminals_per_batch"@, own[2].help, sums@[2]@));
    lemma_histogram_shows(list, at + 2, "relay_checkpoint_terminals_per_batch"@, own[2].help, metrics.checkpoint_terminals_per_batch@, sums@[2]@);
    assert(own[3] == metrics.http_request_seconds@.family("relay_http_request_seconds"@, own[3].help, sums@[3]@));
    lemma_histogram_shows(list, at + 3, "relay_http_request_seconds"@, own[3].help, metrics.http_request_seconds@, sums@[3]@);
}

} // verus!
