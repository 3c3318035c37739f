//! The measurement session and sync orchestration: repeated queries are
//! summarized by the median of their offsets and delays, the next
//! whole-second target is computed from the median offset, and the
//! structured outcome is assembled for the caller.

use vstd::multiset::Multiset;
use vstd::prelude::*;
use vstd::relations::{sorted_by, total_ordering};
use vstd::seq_lib::group_to_multiset_ensures;
use vstd::seq_lib::lemma_sorted_unique;

use crate::setter::SetTimeErrorKind;
use crate::wire::{NtpError, NtpResult};
use crate::MAX_UNIX_US;

verus! {

/// The ordering by which samples are sorted.
pub open spec fn i64_le() -> spec_fn(i64, i64) -> bool {
    |a: i64, b: i64| a <= b
}

/// `<=` on i64 is a total ordering.
pub proof fn lemma_i64_le_total()
    ensures
        total_ordering(i64_le()),
{
    assert(vstd::relations::reflexive(i64_le()));
    assert(vstd::relations::antisymmetric(i64_le()));
    assert(vstd::relations::transitive(i64_le()));
    assert(vstd::relations::strongly_connected(i64_le()));
}

/// The median of a non-empty list of samples: the middle element of the
/// sorted list, the upper of the two middle elements when the count is
/// even.
pub open spec fn spec_median(s: Seq<i64>) -> i64
    recommends
        s.len() > 0,
{
    s.sort_by(i64_le())[s.len() as int / 2]
}

/// Sorts samples ascending.
fn sort_i64(input: Vec<i64>) -> (r: Vec<i64>)
    ensures
        r@ == input@.sort_by(i64_le()),
        r@.to_multiset() == input@.to_multiset(),
        sorted_by(r@, i64_le()),
        r@.len() == input@.len(),
{
    broadcast use group_to_multiset_ensures;
    broadcast use vstd::multiset::group_multiset_axioms;

    let mut src = input;
    let mut out: Vec<i64> = Vec::new();
    let ghost whole = src@;
    proof {
        assert(out@.to_multiset().add(src@.to_multiset()) =~= whole.to_multiset());
    }
    while src.len() > 0
        invariant
            out@.to_multiset().add(src@.to_multiset()) == whole.to_multiset(),
            sorted_by(out@, i64_le()),
            forall|i: int, j: int|
                0 <= i < out@.len() && 0 <= j < src@.len() ==> out@[i] <= src@[j],
        decreases src.len(),
    {
        let mut m: usize = 0;
        let mut k: usize = 1;
        while k < src.len()
            invariant
                0 <= m < k <= src@.len(),
                src@.len() > 0,
                forall|t: int| 0 <= t < k ==> src@[m as int] <= src@[t],
            decreases src.len() - k,
        {
            if src[k] < src[m] {
                m = k;
            }
            k = k + 1;
        }
        let ghost pre = src@;
        let x = src.remove(m);
        proof {
            pre.to_multiset_ensures();
            out@.to_multiset_ensures();
            assert(pre.remove(m as int).to_multiset() =~= pre.to_multiset().remove(x));
            assert(out@.push(x).to_multiset() =~= out@.to_multiset().insert(x));
            assert(pre.to_multiset().contains(x));
            assert(out@.push(x).to_multiset().add(src@.to_multiset()) =~= whole.to_multiset());
            assert forall|j: int| 0 <= j < src@.len() implies x <= src@[j] by {
                if j < m {
                    assert(src@[j] == pre[j]);
                } else {
                    assert(src@[j] == pre[j + 1]);
                }
            }
            assert forall|i: int, j: int|
                0 <= i < out@.push(x).len() && 0 <= j < src@.len() implies out@.push(x)[i]
                <= src@[j] by {}
            assert(sorted_by(out@.push(x), i64_le())) by {
                assert(forall|i: int| 0 <= i < out@.len() ==> i64_le()(out@[i], x));
            }
        }
        out.push(x);
    }
    proof {
        src@.to_multiset_ensures();
        out@.to_multiset_ensures();
        whole.to_multiset_ensures();
        assert(src@.to_multiset() =~= Multiset::<i64>::empty());
        assert(out@.to_multiset() =~= whole.to_multiset());
        lemma_i64_le_total();
        whole.lemma_sort_by_ensures(i64_le());
        assert(whole.sort_by(i64_le()).to_multiset() =~= whole.to_multiset());
        lemma_sorted_unique(out@, whole.sort_by(i64_le()), i64_le());
        assert(out@ =~= whole.sort_by(i64_le()));
        assert(out@.len() == out@.to_multiset().len());
        assert(whole.len() == whole.to_multiset().len());
    }
    out
}

/// The median of a non-empty list of samples: sorts them and takes the
/// middle element.
pub fn median_sample(values: Vec<i64>) -> (r: i64)
    requires
        values@.len() > 0,
    ensures
        r == spec_median(values@),
{
    let sorted = sort_i64(values);
    sorted[sorted.len() / 2]
}

/// The median of a non-empty list is always one of the measured samples,
/// never an artifact of the selection.
pub proof fn lemma_median_is_measured(s: Seq<i64>)
    requires
        s.len() > 0,
    ensures
        s.contains(spec_median(s)),
{
    broadcast use group_to_multiset_ensures;
    broadcast use vstd::multiset::group_multiset_axioms;

    lemma_i64_le_total();
    s.lemma_sort_by_ensures(i64_le());
    let t = s.sort_by(i64_le());
    s.to_multiset_ensures();
    t.to_multiset_ensures();
    assert(t.len() == s.len()) by {
        assert(t.to_multiset().len() == s.to_multiset().len());
    }
    assert(t.contains(t[s.len() as int / 2]));
    assert(t.to_multiset().contains(spec_median(s)));
    assert(s.to_multiset().contains(spec_median(s)));
}

/// The successful measurements of a session, in order.
pub open spec fn spec_successes(s: Seq<Result<NtpResult, NtpError>>) -> Seq<NtpResult>
    decreases s.len(),
{
    if s.len() == 0 {
        Seq::empty()
    } else {
        spec_successes(s.drop_last()) + match s.last() {
            Ok(m) => seq![m],
            Err(_) => Seq::<NtpResult>::empty(),
        }
    }
}

/// The offsets of the successful measurements, in order.
pub open spec fn spec_offsets(s: Seq<Result<NtpResult, NtpError>>) -> Seq<i64>
    decreases s.len(),
{
    if s.len() == 0 {
        Seq::empty()
    } else {
        spec_offsets(s.drop_last()) + match s.last() {
            Ok(m) => seq![m.offset],
            Err(_) => Seq::<i64>::empty(),
        }
    }
}

/// The delays of the successful measurements, in order.
pub open spec fn spec_delays(s: Seq<Result<NtpResult, NtpError>>) -> Seq<i64>
    decreases s.len(),
{
    if s.len() == 0 {
        Seq::empty()
    } else {
        spec_delays(s.drop_last()) + match s.last() {
            Ok(m) => seq![m.delay],
            Err(_) => Seq::<i64>::empty(),
        }
    }
}

/// A whole session failed: every query errored.
pub struct SyncError {
    pub success: bool,
    pub error: String,
    pub code: String,
}

/// What a session of repeated measurements amounts to: the medians of the
/// successful offsets and delays, and the last successful measurement for
/// its header metadata.
pub struct SessionSummary {
    pub median_offset: i64,
    pub median_delay: i64,
    pub last: NtpResult,
}

/// Summarizes a measurement session. The session fails — with the stable
/// code `NTP_ERROR` — exactly when no attempt succeeded; otherwise the
/// medians are taken over the successful attempts only, and the last
/// successful measurement is retained for reporting.
pub fn summarize_session(attempts: Vec<Result<NtpResult, NtpError>>) -> (r: Result<
    SessionSummary,
    SyncError,
>)
    ensures
        r is Ok <==> spec_successes(attempts@).len() > 0,
        r matches Ok(s) ==> {
            &&& s.median_offset == spec_median(spec_offsets(attempts@))
            &&& s.median_delay == spec_median(spec_delays(attempts@))
            &&& s.last == spec_successes(attempts@).last()
        },
        r matches Err(e) ==> !e.success && e.code@ == "NTP_ERROR"@,
{
    let ghost whole = attempts@;
    let mut rest = attempts;
    let mut offsets: Vec<i64> = Vec::new();
    let mut delays: Vec<i64> = Vec::new();
    let mut last: Option<NtpResult> = None;
    let ghost mut idx: int = 0;
    proof {
        assert(whole.take(0) =~= Seq::<Result<NtpResult, NtpError>>::empty());
        assert(whole.subrange(0, whole.len() as int) =~= whole);
    }
    while rest.len() > 0
        invariant
            0 <= idx <= whole.len(),
            rest@ == whole.subrange(idx, whole.len() as int),
            offsets@ == spec_offsets(whole.take(idx)),
            delays@ == spec_delays(whole.take(idx)),
            offsets@.len() == delays@.len(),
            spec_successes(whole.take(idx)).len() == offsets@.len(),
            last is Some <==> spec_successes(whole.take(idx)).len() > 0,
            last matches Some(m) ==> spec_successes(whole.take(idx)).len() > 0 && m
                == spec_successes(whole.take(idx)).last(),
        decreases rest.len(),
    {
        proof {
            let pre = whole.take(idx);
            let post = whole.take(idx + 1);
            assert(post.drop_last() =~= pre);
            assert(post.last() == whole[idx]);
            assert(rest@[0] == whole[idx]);
        }
        let head = rest.remove(0);
        proof {
            assert(rest@ =~= whole.subrange(idx + 1, whole.len() as int));
        }
        match head {
            Ok(m) => {
                offsets.push(m.offset);
                delays.push(m.delay);
                proof {
                    assert(spec_offsets(whole.take(idx + 1)) =~= spec_offsets(whole.take(idx))
                        + seq![m.offset]);
                    assert(spec_delays(whole.take(idx + 1)) =~= spec_delays(whole.take(idx))
                        + seq![m.delay]);
                    assert(spec_successes(whole.take(idx + 1)) =~= spec_successes(
                        whole.take(idx),
                    ) + seq![m]);
                }
                last = Some(m);
            },
            Err(_) => {
                proof {
                    assert(spec_offsets(whole.take(idx + 1)) =~= spec_offsets(whole.take(idx)));
                    assert(spec_delays(whole.take(idx + 1)) =~= spec_delays(whole.take(idx)));
                    assert(spec_successes(whole.take(idx + 1)) =~= spec_successes(
                        whole.take(idx),
                    ));
                }
            },
        }
        proof {
            idx = idx + 1;
        }
    }
    proof {
        assert(whole.take(whole.len() as int) =~= whole);
    }
    match last {
        None => Err(
            SyncError {
                success: false,
                error: String::from_str("every NTP query of the session failed"),
                code: String::from_str("NTP_ERROR"),
            },
        ),
        Some(m) => {
            let median_offset = median_sample(offsets);
            let median_delay = median_sample(delays);
            Ok(SessionSummary { median_offset, median_delay, last: m })
        },
    }
}

/// The instant (in corrected time) of the next whole second after
/// `corrected`: the target the clock write aims to land on.
pub open spec fn spec_next_second(corrected: int) -> int {
    (corrected / 1_000_000 + 1) * 1_000_000
}

/// Computes the sync target from the local clock reading and the median
/// offset: the corrected time's next whole second, and the local instant
/// at which the corrected time crosses it.
pub fn compute_sync_target(now_local: i64, median_offset: i64) -> (r: (i64, i64))
    requires
        0 <= now_local <= MAX_UNIX_US,
        0 <= now_local + median_offset <= MAX_UNIX_US,
    ensures
        r.0 == spec_next_second(now_local + median_offset),
        r.0 % 1_000_000 == 0,
        now_local + median_offset < r.0 <= now_local + median_offset + 1_000_000,
        r.1 == now_local + (r.0 - (now_local + median_offset)),
        r.1 + median_offset == r.0,
        now_local < r.1 <= now_local + 1_000_000,
{
    let corrected = now_local + median_offset;
    let target = (corrected / 1_000_000 + 1) * 1_000_000;
    let wait_until_local = now_local + (target - corrected);
    (target, wait_until_local)
}

/// The end-to-end outcome of one sync operation, reported to the caller
/// whether or not the clock write succeeded.
pub struct SyncResult {
    pub success: bool,
    pub message: String,
    pub server: String,
    pub server_ip: String,
    pub offset: i64,
    pub delay: i64,
    pub previous_time: i64,
    pub new_time: i64,
    pub t1: i64,
    pub t2: i64,
    pub t3: i64,
    pub t4: i64,
    pub pre_sync_offset: i64,
    pub post_sync_offset: i64,
    pub code: Option<String>,
}

/// Assembles the outcome of one sync operation. The measurement numbers
/// are reported even when the write failed; a permission failure, a
/// missing sidecar and an unreachable sidecar are each flagged in `code`
/// under their own name, so the caller can offer installation or restart
/// guidance. After a successful write the re-measured offset is reported
/// (0 when the verification query itself failed); after a failed write
/// the pre-sync median stands.
pub fn build_sync_outcome(
    summary: SessionSummary,
    previous_time: i64,
    new_time: i64,
    post_offset: Option<i64>,
    sync_error: Option<(SetTimeErrorKind, String)>,
) -> (r: SyncResult)
    ensures
        r.success <==> sync_error is None,
        r.pre_sync_offset == summary.median_offset,
        r.delay == summary.median_delay,
        r.previous_time == previous_time,
        r.new_time == new_time,
        r.server == summary.last.server,
        r.server_ip == summary.last.server_ip,
        r.t1 == summary.last.t1,
        r.t2 == summary.last.t2,
        r.t3 == summary.last.t3,
        r.t4 == summary.last.t4,
        sync_error is None ==> r.post_sync_offset == (match post_offset {
            Some(o) => o,
            None => 0,
        }) && r.message@ == "sync complete (median of repeated measurements)"@ && r.code is None,
        sync_error matches Some((k, d)) ==> {
            &&& r.post_sync_offset == summary.median_offset
            &&& r.message == d
            &&& (k == SetTimeErrorKind::PermissionDenied ==> (r.code matches Some(c) && c@
                == "PERMISSION_DENIED"@))
            &&& (k == SetTimeErrorKind::SidecarNotInstalled ==> (r.code matches Some(c) && c@
                == "SIDECAR_NOT_INSTALLED"@))
            &&& (k == SetTimeErrorKind::SidecarNotRunning ==> (r.code matches Some(c) && c@
                == "SIDECAR_NOT_RUNNING"@))
            &&& (!(k == SetTimeErrorKind::PermissionDenied || k
                == SetTimeErrorKind::SidecarNotInstalled || k
                == SetTimeErrorKind::SidecarNotRunning) ==> r.code is None)
        },
        r.offset == r.post_sync_offset,
{
    let success = sync_error.is_none();
    let post_sync_offset = match &sync_error {
        None => match post_offset {
            Some(o) => o,
            None => 0,
        },
        Some(_) => summary.median_offset,
    };
    let (message, code) = match sync_error {
        None => (
            String::from_str("sync complete (median of repeated measurements)"),
            None,
        ),
        Some((k, d)) => (
            d,
            match k {
                SetTimeErrorKind::PermissionDenied => Some(String::from_str("PERMISSION_DENIED")),
                SetTimeErrorKind::SidecarNotInstalled => Some(
                    String::from_str("SIDECAR_NOT_INSTALLED"),
                ),
                SetTimeErrorKind::SidecarNotRunning => Some(
                    String::from_str("SIDECAR_NOT_RUNNING"),
                ),
                _ => None,
            },
        ),
    };
    SyncResult {
        success,
        message,
        server: summary.last.server,
        server_ip: summary.last.server_ip,
        offset: post_sync_offset,
        delay: summary.median_delay,
        previous_time,
        new_time,
        t1: summary.last.t1,
        t2: summary.last.t2,
        t3: summary.last.t3,
        t4: summary.last.t4,
        pre_sync_offset: summary.median_offset,
        post_sync_offset,
        code,
    }
}

} // verus!
