//! Whom a reply comes from, how long it is waited for, and what each try for the port leads to.

use vstd::prelude::*;
use vstd::string::*;

use crate::commands;
use crate::error::{AppErrorView, ErrKind};
use crate::net::{
    self, AttemptView, Datagram, DatagramView, Patience, Received, ReplyStepView, ResourceView,
    RetryStepView, RetryView,
};
use crate::node_laws;
use crate::text;

verus! {

broadcast use vstd::string::group_string_axioms;

/// The constants of the network layer.
pub proof fn law_constants()
    ensures
        net::ECHONET_PORT == 3610,
        net::MULTICAST_ADDR@ == "224.0.23.0"@,
        net::BIND_RETRY_INTERVAL_MS == 30,
        net::BIND_RETRY_WINDOW_MS == 2000,
{
}

/// A TID agrees with the nanoseconds of the clock modulo 65536; without a clock it is 1.
pub proof fn law_tid(nanos: u32)
    ensures
        (nanos - commands::tid_of(Some(nanos))) % 65536 == 0,
        commands::tid_of(None) == 1,
{
}

/// Waiting ends at the deadline: what is left, added to the present time, is the deadline. Without a
/// deadline it does not end, and at the deadline or after it nothing is left.
pub proof fn law_time_left(deadline: Option<u64>, now: u64)
    ensures
        match net::patience_until(deadline, now) {
            Patience::Forever => deadline is None,
            Patience::For(left) => left > 0 && deadline is Some && now + left == deadline->0,
            Patience::Over => deadline is Some && now >= deadline->0,
        },
{
}

/// A datagram is the reply exactly if it comes from the device that was asked and its bytes begin
/// with 0x10, 0x81 and the TID of the request, the high byte first.
pub proof fn law_reply(dg: DatagramView, expect: Seq<char>, tid: u16)
    ensures
        net::is_reply(dg, expect, tid) <==> dg.from == expect && dg.data.len() >= 4 && dg.data[0]
            == 0x10 && dg.data[1] == 0x81 && dg.data[2] * 256 + dg.data[3] == tid,
{
    node_laws::law_answers(dg.data, tid);
}

/// Where no reply comes in time, the error names the device and the limit.
pub proof fn law_no_reply(expect: Seq<char>, timeout_ms: u64)
    ensures
        ({
            let e = net::no_reply(expect, timeout_ms);
            &&& e.kind == ErrKind::Timeout
            &&& e.detail == expect + " からの応答なし ("@ + text::decimal(timeout_ms as nat)
                + "ms)"@
            &&& e.extra is None
        }),
{
}

/// What comes in is accepted as the reply exactly if it is one, and otherwise skipped; when the time
/// is over, waiting fails.
pub proof fn law_reply_step(dg: Datagram, expect: Seq<char>, tid: u16, timeout_ms: u64)
    ensures
        net::after_waiting(None, expect, tid, timeout_ms) == ReplyStepView::Fail(
            net::no_reply(expect, timeout_ms),
        ),
        ({
            let data = dg.data@;
            net::after_waiting(Some(dg), expect, tid, timeout_ms) == (if dg.from@ == expect
                && data.len() >= 4 && data[0] == 0x10 && data[1] == 0x81 && data[2] * 256 + data[3]
                == tid {
                ReplyStepView::Accept(dg)
            } else {
                ReplyStepView::Skip
            })
        }),
{
    law_reply(dg@, expect, tid);
}

/// A datagram is handed on as it came, a time that is over gives nothing, and a failure of the system
/// is a network error with its words.
pub proof fn law_reception(dg: Datagram, why: String)
    ensures
        net::reception(Received::Got(dg)) == Ok::<Option<Datagram>, AppErrorView>(Some(dg)),
        net::reception(Received::Nothing) == Ok::<Option<Datagram>, AppErrorView>(None),
        net::reception(Received::Failed(why)) matches Err(e) && e.kind == ErrKind::Network
            && e.detail == "受信失敗: "@ + why@ && e.extra is None,
{
}

/// What each try leads to. What is taken is done, and it is remembered whether there was a wait
/// before. What is busy is tried again after the given pause, as long as less than the whole window
/// has passed, and announced the first time only; after that it is given up. Any other failure is
/// given up at once.
pub proof fn law_retry_step(
    resource: ResourceView,
    retry: RetryView,
    why: Seq<char>,
    elapsed_ms: u64,
)
    ensures
        net::after_attempt(resource, retry, AttemptView::Taken, elapsed_ms) == (
        RetryStepView::Done { waited: retry.waited }),
        elapsed_ms < retry.window_ms ==> net::after_attempt(
            resource,
            retry,
            AttemptView::Busy(why),
            elapsed_ms,
        ) == (RetryStepView::Wait { announce: !retry.waited, pause_ms: retry.interval_ms }),
        elapsed_ms >= retry.window_ms ==> (net::after_attempt(
            resource,
            retry,
            AttemptView::Busy(why),
            elapsed_ms,
        ) matches RetryStepView::GiveUp(e) && e.kind == ErrKind::Bind && e.extra is None),
        net::after_attempt(resource, retry, AttemptView::Failed(why), elapsed_ms) matches
            RetryStepView::GiveUp(e) && e.kind == ErrKind::Bind && e.extra is None,
{
}

/// After a step the window and the pause are as before, and it is remembered whether there ever was
/// a wait.
pub proof fn law_retry_memory(retry: RetryView, step: RetryStepView)
    ensures
        ({
            let next = net::after_retry(retry, step);
            &&& next.window_ms == retry.window_ms
            &&& next.interval_ms == retry.interval_ms
            &&& step is Wait ==> next.waited
            &&& !(step is Wait) ==> next.waited == retry.waited
        }),
{
}

/// The words of the errors for what stays busy and for what cannot be taken.
pub proof fn law_retry_errors(name: Seq<char>, why: Seq<char>, window_ms: u64)
    ensures
        net::still_busy(ResourceView::Lock(name), why, window_ms).detail == "one-shot ロック "@
            + name + " を取得できず ("@ + text::decimal(window_ms as nat)
            + "ms 再試行)。他の enl one-shot が長時間専有していないか確認"@,
        net::still_busy(ResourceView::Port(name), why, window_ms).detail == name
            + " へのバインド失敗: "@ + why + "。"@ + text::decimal(window_ms as nat)
            + "ms 再試行しても解放されず。HA 等の常駐コントローラが専有していないか確認"@,
        net::not_taken(ResourceView::Lock(name), why).detail == "ロック "@ + name
            + " の取得失敗: "@ + why,
        net::not_taken(ResourceView::Port(name), why).detail == name + " へのバインド失敗: "@
            + why,
{
}

} // verus!
