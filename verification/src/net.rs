//! The decisions of the UDP layer: which datagrams answer a request, how long to wait for one, and
//! when to try again for the port.
//!
//! A device answers to port 3610, whatever port the request came from. One-shot commands therefore
//! take `0.0.0.0:3610`, one after the other by means of a lock, and `listen` takes the multicast
//! group address `224.0.23.0:3610`, beside them.

use vstd::prelude::*;
use vstd::string::*;

use crate::error::{self, AppError, AppErrorView, ErrKind};
use crate::text;

verus! {

broadcast use vstd::string::group_string_axioms;

/// The port of ECHONET Lite.
pub const ECHONET_PORT: u16 = 3610;

/// The multicast address of ECHONET Lite. Notifications are sent to it.
pub const MULTICAST_ADDR: &'static str = "224.0.23.0";

/// How long to pause between two tries for the port or its lock, in milliseconds.
pub const BIND_RETRY_INTERVAL_MS: u64 = 30;

/// How long to keep trying for the port or its lock, in milliseconds: long enough for another
/// one-shot command to wait for its response.
pub const BIND_RETRY_WINDOW_MS: u64 = 2000;

// ───────────────────────── replies ─────────────────────────

/// The bytes can answer the request with the given TID: they begin like a frame of the specified
/// format with the same TID.
pub open spec fn answers(data: Seq<u8>, tid: u16) -> bool {
    data.len() >= 4 && data.take(4) == seq![0x10u8, 0x81u8] + text::be_bytes(tid)
}

/// Whether received bytes can answer the request with the given TID. Other controllers talk on the
/// same port and group.
pub fn is_reply_candidate(data: &[u8], tid: u16) -> (r: bool)
    ensures
        r == answers(data@, tid),
{
    if data.len() < 4 {
        return false;
    }
    let ghost head = seq![0x10u8, 0x81u8] + text::be_bytes(tid);
    let r = data[0] == 0x10 && data[1] == 0x81 && data[2] == (tid / 256) as u8 && data[3] == (tid
        % 256) as u8;
    proof {
        if r {
            assert(data@.take(4) =~= head);
        } else {
            assert(data@.take(4)[0] != head[0] || data@.take(4)[1] != head[1] || data@.take(4)[2]
                != head[2] || data@.take(4)[3] != head[3]);
        }
    }
    r
}

/// One received datagram: the address that it came from and its bytes.
#[derive(Debug)]
pub struct Datagram {
    pub from: String,
    pub data: Vec<u8>,
}

/// The model of a datagram.
#[verifier::ext_equal]
pub struct DatagramView {
    pub from: Seq<char>,
    pub data: Seq<u8>,
}

impl View for Datagram {
    type V = DatagramView;

    open spec fn view(&self) -> DatagramView {
        DatagramView { from: self.from@, data: self.data@ }
    }
}

/// How long to wait for a datagram, in nanoseconds.
#[derive(Clone, Copy, PartialEq, Eq, Structural, Debug)]
pub enum Patience {
    /// Until one comes.
    Forever,
    /// For some time.
    For(u64),
    /// No longer.
    Over,
}

/// How long to wait until a deadline.
pub open spec fn patience_until(deadline: Option<u64>, now: u64) -> Patience {
    match deadline {
        None => Patience::Forever,
        Some(d) => if now < d {
            Patience::For((d - now) as u64)
        } else {
            Patience::Over
        },
    }
}

/// How long to wait for a datagram: until the deadline, where there is one and it has not passed.
/// Both times are on the same clock.
pub fn time_left(deadline: Option<u64>, now: u64) -> (patience: Patience)
    ensures
        patience == patience_until(deadline, now),
{
    match deadline {
        None => Patience::Forever,
        Some(d) => if now < d {
            Patience::For(d - now)
        } else {
            Patience::Over
        },
    }
}

/// What came of waiting for a datagram.
pub enum Received {
    /// A datagram.
    Got(Datagram),
    /// The time was over, or no datagram was there.
    Nothing,
    /// The system reported an error.
    Failed(String),
}

/// What waiting for a datagram gives.
pub open spec fn reception(received: Received) -> Result<Option<Datagram>, AppErrorView> {
    match received {
        Received::Got(dg) => Ok(Some(dg)),
        Received::Nothing => Ok(None),
        Received::Failed(why) => Err(
            error::plain_error(ErrKind::Network, "受信失敗: "@ + why@),
        ),
    }
}

/// What waiting for a datagram gives: a datagram, nothing when the time is over, or a network error.
pub fn recv_one(received: Received) -> (r: Result<Option<Datagram>, AppError>)
    ensures
        match r {
            Ok(got) => reception(received) == Ok::<Option<Datagram>, AppErrorView>(got),
            Err(e) => reception(received) == Err::<Option<Datagram>, AppErrorView>(e@),
        },
{
    match received {
        Received::Got(dg) => Ok(Some(dg)),
        Received::Nothing => Ok(None),
        Received::Failed(why) => Err(
            AppError::new(ErrKind::Network, text::concat("受信失敗: ", why.as_str())),
        ),
    }
}

/// A datagram is the reply to a request: it comes from the expected address and can answer the
/// request.
pub open spec fn is_reply(dg: DatagramView, expect: Seq<char>, tid: u16) -> bool {
    dg.from == expect && answers(dg.data, tid)
}

/// The error for a reply that did not come in time.
pub open spec fn no_reply(expect: Seq<char>, timeout_ms: u64) -> AppErrorView {
    error::plain_error(
        ErrKind::Timeout,
        expect + " からの応答なし ("@ + text::decimal(timeout_ms as nat) + "ms)"@,
    )
}

/// What to do while waiting for a reply.
pub enum ReplyStep {
    /// The reply is there.
    Accept(Datagram),
    /// The datagram is not the reply: wait for another one.
    Skip,
    /// Give up.
    Fail(AppError),
}

/// The model of what to do while waiting for a reply.
pub enum ReplyStepView {
    Accept(Datagram),
    Skip,
    Fail(AppErrorView),
}

impl View for ReplyStep {
    type V = ReplyStepView;

    open spec fn view(&self) -> ReplyStepView {
        match *self {
            ReplyStep::Accept(dg) => ReplyStepView::Accept(dg),
            ReplyStep::Skip => ReplyStepView::Skip,
            ReplyStep::Fail(e) => ReplyStepView::Fail(e@),
        }
    }
}

/// What to do with what came while waiting for a reply.
pub open spec fn after_waiting(
    received: Option<Datagram>,
    expect: Seq<char>,
    tid: u16,
    timeout_ms: u64,
) -> ReplyStepView {
    match received {
        None => ReplyStepView::Fail(no_reply(expect, timeout_ms)),
        Some(dg) => if is_reply(dg@, expect, tid) {
            ReplyStepView::Accept(dg)
        } else {
            ReplyStepView::Skip
        },
    }
}

/// Takes what came while waiting for the reply of `expect` to the request with the given TID. A
/// datagram from elsewhere, or for another request, is skipped.
pub fn reply_step(
    received: Option<Datagram>,
    expect: &str,
    tid: u16,
    timeout_ms: u64,
) -> (step: ReplyStep)
    ensures
        step@ == after_waiting(received, expect@, tid, timeout_ms),
{
    match received {
        None => {
            let mut detail = text::concat(expect, " からの応答なし (");
            detail.append(text::to_decimal(timeout_ms).as_str());
            detail.append("ms)");
            ReplyStep::Fail(AppError::new(ErrKind::Timeout, detail))
        },
        Some(dg) => if text::same_text(dg.from.as_str(), expect) && is_reply_candidate(
            dg.data.as_slice(),
            tid,
        ) {
            ReplyStep::Accept(dg)
        } else {
            ReplyStep::Skip
        },
    }
}

/// The reply among the datagrams that come in, one after the other, before the time is over.
pub open spec fn first_reply(
    datagrams: Seq<DatagramView>,
    expect: Seq<char>,
    tid: u16,
) -> Option<DatagramView>
    decreases datagrams.len(),
{
    if datagrams.len() == 0 {
        None
    } else if is_reply(datagrams[0], expect, tid) {
        Some(datagrams[0])
    } else {
        first_reply(datagrams.skip(1), expect, tid)
    }
}

/// The datagrams that come in before the reply do not change it: whatever other devices and other
/// controllers send, the reply of the expected device is found, and nothing else is taken for it.
pub proof fn law_noise_is_skipped(
    noise: Seq<DatagramView>,
    reply: DatagramView,
    later: Seq<DatagramView>,
    expect: Seq<char>,
    tid: u16,
)
    requires
        is_reply(reply, expect, tid),
        forall|i: int| 0 <= i < noise.len() ==> !is_reply(#[trigger] noise[i], expect, tid),
    ensures
        first_reply(noise + seq![reply] + later, expect, tid) == Some(reply),
        first_reply(noise, expect, tid) is None,
    decreases noise.len(),
{
    let all = noise + seq![reply] + later;
    if noise.len() == 0 {
        assert(all[0] == reply);
    } else {
        assert(all[0] == noise[0]);
        assert(!is_reply(noise[0], expect, tid));
        let rest = noise.skip(1);
        assert forall|i: int| 0 <= i < rest.len() implies !is_reply(
            #[trigger] rest[i],
            expect,
            tid,
        ) by {
            assert(rest[i] == noise[i + 1]);
        }
        law_noise_is_skipped(rest, reply, later, expect, tid);
        assert(all.skip(1) =~= rest + seq![reply] + later);
    }
}

// ───────────────────────── trying again ─────────────────────────

/// What is to be taken.
pub enum Resource {
    /// The lock file at a path.
    Lock(String),
    /// An address and port.
    Port(String),
}

/// The model of what is to be taken.
pub enum ResourceView {
    Lock(Seq<char>),
    Port(Seq<char>),
}

impl View for Resource {
    type V = ResourceView;

    open spec fn view(&self) -> ResourceView {
        match *self {
            Resource::Lock(path) => ResourceView::Lock(path@),
            Resource::Port(addr) => ResourceView::Port(addr@),
        }
    }
}

/// What came of one try, with the system's words where it failed.
pub enum Attempt {
    /// It is taken.
    Taken,
    /// Another process holds it: the lock would block, or the address is in use.
    Busy(String),
    /// It cannot be taken for another reason.
    Failed(String),
}

/// The model of what came of one try.
pub enum AttemptView {
    Taken,
    Busy(Seq<char>),
    Failed(Seq<char>),
}

impl View for Attempt {
    type V = AttemptView;

    open spec fn view(&self) -> AttemptView {
        match *self {
            Attempt::Taken => AttemptView::Taken,
            Attempt::Busy(why) => AttemptView::Busy(why@),
            Attempt::Failed(why) => AttemptView::Failed(why@),
        }
    }
}

/// What to do after a try.
pub enum RetryStep {
    /// It is taken, at once or after waiting.
    Done { waited: bool },
    /// Pause for some milliseconds and try again. The first time the user is told.
    Wait { announce: bool, pause_ms: u64 },
    /// Give up.
    GiveUp(AppError),
}

/// The model of what to do after a try.
pub enum RetryStepView {
    Done { waited: bool },
    Wait { announce: bool, pause_ms: u64 },
    GiveUp(AppErrorView),
}

impl View for RetryStep {
    type V = RetryStepView;

    open spec fn view(&self) -> RetryStepView {
        match *self {
            RetryStep::Done { waited } => RetryStepView::Done { waited },
            RetryStep::Wait { announce, pause_ms } => RetryStepView::Wait { announce, pause_ms },
            RetryStep::GiveUp(e) => RetryStepView::GiveUp(e@),
        }
    }
}

/// The error for something that another process held for the whole window.
pub open spec fn still_busy(resource: ResourceView, why: Seq<char>, window_ms: u64) -> AppErrorView {
    let window = text::decimal(window_ms as nat);
    error::plain_error(
        ErrKind::Bind,
        match resource {
            ResourceView::Lock(path) => "one-shot ロック "@ + path + " を取得できず ("@ + window
                + "ms 再試行)。他の enl one-shot が長時間専有していないか確認"@,
            ResourceView::Port(addr) => addr + " へのバインド失敗: "@ + why + "。"@ + window
                + "ms 再試行しても解放されず。HA 等の常駐コントローラが専有していないか確認"@,
        },
    )
}

/// The error for something that cannot be taken.
pub open spec fn not_taken(resource: ResourceView, why: Seq<char>) -> AppErrorView {
    error::plain_error(
        ErrKind::Bind,
        match resource {
            ResourceView::Lock(path) => "ロック "@ + path + " の取得失敗: "@ + why,
            ResourceView::Port(addr) => addr + " へのバインド失敗: "@ + why,
        },
    )
}

/// What to do after a try: only what another process holds is worth another try, and only until the
/// window is over.
pub open spec fn after_attempt(
    resource: ResourceView,
    retry: RetryView,
    attempt: AttemptView,
    elapsed_ms: u64,
) -> RetryStepView {
    match attempt {
        AttemptView::Taken => RetryStepView::Done { waited: retry.waited },
        AttemptView::Busy(why) => if elapsed_ms >= retry.window_ms {
            RetryStepView::GiveUp(still_busy(resource, why, retry.window_ms))
        } else {
            RetryStepView::Wait { announce: !retry.waited, pause_ms: retry.interval_ms }
        },
        AttemptView::Failed(why) => RetryStepView::GiveUp(not_taken(resource, why)),
    }
}

/// The state of a series of tries.
pub struct Retry {
    window_ms: u64,
    interval_ms: u64,
    waited: bool,
}

/// The model of a series of tries.
pub struct RetryView {
    /// How long to keep trying.
    pub window_ms: u64,
    /// How long to pause between two tries.
    pub interval_ms: u64,
    /// Whether a try was busy before.
    pub waited: bool,
}

impl View for Retry {
    type V = RetryView;

    closed spec fn view(&self) -> RetryView {
        RetryView {
            window_ms: self.window_ms,
            interval_ms: self.interval_ms,
            waited: self.waited,
        }
    }
}

impl Retry {
    /// The start of a series of tries.
    pub fn new(window_ms: u64, interval_ms: u64) -> (retry: Retry)
        ensures
            retry@ == (RetryView { window_ms, interval_ms, waited: false }),
    {
        Retry { window_ms, interval_ms, waited: false }
    }

    /// Takes what came of a try, `elapsed_ms` after the start of the series, and says what to do.
    pub fn step(&mut self, resource: &Resource, attempt: Attempt, elapsed_ms: u64) -> (step:
        RetryStep)
        ensures
            step@ == after_attempt(resource@, old(self)@, attempt@, elapsed_ms),
            final(self)@ == after_retry(old(self)@, step@),
    {
        match attempt {
            Attempt::Taken => RetryStep::Done { waited: self.waited },
            Attempt::Busy(why) => {
                if elapsed_ms >= self.window_ms {
                    return RetryStep::GiveUp(
                        busy_error(resource, why.as_str(), self.window_ms),
                    );
                }
                let announce = !self.waited;
                self.waited = true;
                RetryStep::Wait { announce, pause_ms: self.interval_ms }
            },
            Attempt::Failed(why) => RetryStep::GiveUp(taking_error(resource, why.as_str())),
        }
    }
}

/// The state after a step: it remembers that there was a wait.
pub open spec fn after_retry(retry: RetryView, step: RetryStepView) -> RetryView {
    RetryView { waited: retry.waited || step is Wait, ..retry }
}

/// The error for something that another process held for the whole window.
fn busy_error(resource: &Resource, why: &str, window_ms: u64) -> (e: AppError)
    ensures
        e@ == still_busy(resource@, why@, window_ms),
{
    let window = text::to_decimal(window_ms);
    let detail = match resource {
        Resource::Lock(path) => {
            let mut s = text::concat("one-shot ロック ", path.as_str());
            s.append(" を取得できず (");
            s.append(window.as_str());
            s.append("ms 再試行)。他の enl one-shot が長時間専有していないか確認");
            s
        },
        Resource::Port(addr) => {
            let mut s = text::concat(addr.as_str(), " へのバインド失敗: ");
            s.append(why);
            s.append("。");
            s.append(window.as_str());
            s.append("ms 再試行しても解放されず。HA 等の常駐コントローラが専有していないか確認");
            s
        },
    };
    AppError::new(ErrKind::Bind, detail)
}

/// The error for something that cannot be taken.
fn taking_error(resource: &Resource, why: &str) -> (e: AppError)
    ensures
        e@ == not_taken(resource@, why@),
{
    let detail = match resource {
        Resource::Lock(path) => {
            let mut s = text::concat("ロック ", path.as_str());
            s.append(" の取得失敗: ");
            s.append(why);
            s
        },
        Resource::Port(addr) => {
            let mut s = text::concat(addr.as_str(), " へのバインド失敗: ");
            s.append(why);
            s
        },
    };
    AppError::new(ErrKind::Bind, detail)
}

/// The outcome of a series of tries, each with the time at which it was made: the outcome of the
/// last try that is made, or `None` where the series goes on.
pub open spec fn outcome(
    resource: ResourceView,
    retry: RetryView,
    tries: Seq<(AttemptView, u64)>,
) -> Option<RetryStepView>
    decreases tries.len(),
{
    if tries.len() == 0 {
        None
    } else {
        let step = after_attempt(resource, retry, tries[0].0, tries[0].1);
        if step is Wait {
            outcome(resource, after_retry(retry, step), tries.skip(1))
        } else {
            Some(step)
        }
    }
}

/// How often the user is told that something is busy.
pub open spec fn announcements(
    resource: ResourceView,
    retry: RetryView,
    tries: Seq<(AttemptView, u64)>,
) -> nat
    decreases tries.len(),
{
    if tries.len() == 0 {
        0
    } else {
        let step = after_attempt(resource, retry, tries[0].0, tries[0].1);
        match step {
            RetryStepView::Wait { announce, .. } => (if announce {
                1nat
            } else {
                0nat
            }) + announcements(resource, after_retry(retry, step), tries.skip(1)),
            _ => 0,
        }
    }
}

/// A short collision is absorbed: where another process lets go within the window, the try after
/// that succeeds, however many tries were busy before it.
pub proof fn law_short_collision_absorbed(
    resource: ResourceView,
    retry: RetryView,
    busy: Seq<(AttemptView, u64)>,
    at: u64,
)
    requires
        forall|i: int|
            0 <= i < busy.len() ==> (#[trigger] busy[i]).0 is Busy && busy[i].1 < retry.window_ms,
    ensures
        outcome(resource, retry, busy.push((AttemptView::Taken, at))) == Some(
            RetryStepView::Done { waited: retry.waited || busy.len() > 0 },
        ),
    decreases busy.len(),
{
    let tries = busy.push((AttemptView::Taken, at));
    if busy.len() > 0 {
        assert(tries[0] == busy[0]);
        let step = after_attempt(resource, retry, tries[0].0, tries[0].1);
        assert(step is Wait);
        let rest = busy.skip(1);
        assert(forall|i: int| 0 <= i < rest.len() ==> #[trigger] rest[i] == busy[i + 1]);
        assert(tries.skip(1) =~= rest.push((AttemptView::Taken, at)));
        law_short_collision_absorbed(resource, after_retry(retry, step), rest, at);
    }
}

/// What stays busy until the window is over fails with a bind error, and not before.
pub proof fn law_permanent_holder_fails(
    resource: ResourceView,
    retry: RetryView,
    busy: Seq<(AttemptView, u64)>,
    why: Seq<char>,
    at: u64,
)
    requires
        forall|i: int|
            0 <= i < busy.len() ==> (#[trigger] busy[i]).0 is Busy && busy[i].1 < retry.window_ms,
        at >= retry.window_ms,
    ensures
        outcome(resource, retry, busy) is None,
        outcome(resource, retry, busy.push((AttemptView::Busy(why), at))) == Some(
            RetryStepView::GiveUp(still_busy(resource, why, retry.window_ms)),
        ),
        still_busy(resource, why, retry.window_ms).kind == ErrKind::Bind,
    decreases busy.len(),
{
    let tries = busy.push((AttemptView::Busy(why), at));
    if busy.len() > 0 {
        assert(tries[0] == busy[0]);
        let step = after_attempt(resource, retry, tries[0].0, tries[0].1);
        assert(step is Wait);
        let rest = busy.skip(1);
        assert(forall|i: int| 0 <= i < rest.len() ==> #[trigger] rest[i] == busy[i + 1]);
        assert(tries.skip(1) =~= rest.push((AttemptView::Busy(why), at)));
        law_permanent_holder_fails(resource, after_retry(retry, step), rest, why, at);
    }
}

/// What another try cannot mend fails at once, with a bind error, at whatever time it comes.
pub proof fn law_other_failures_are_final(
    resource: ResourceView,
    retry: RetryView,
    why: Seq<char>,
    at: u64,
)
    ensures
        outcome(resource, retry, seq![(AttemptView::Failed(why), at)]) == Some(
            RetryStepView::GiveUp(not_taken(resource, why)),
        ),
        not_taken(resource, why).kind == ErrKind::Bind,
{
}

/// The user is told of a collision once at the most, however long it lasts.
pub proof fn law_announced_once(
    resource: ResourceView,
    retry: RetryView,
    tries: Seq<(AttemptView, u64)>,
)
    ensures
        announcements(resource, retry, tries) <= (if retry.waited {
            0nat
        } else {
            1nat
        }),
    decreases tries.len(),
{
    if tries.len() > 0 {
        let step = after_attempt(resource, retry, tries[0].0, tries[0].1);
        law_announced_once(resource, after_retry(retry, step), tries.skip(1));
    }
}

// ───────────────────────── other failures ─────────────────────────

/// The error for a lock file that cannot be opened.
pub fn lock_file_error(path: &str, why: &str) -> (e: AppError)
    ensures
        e@ == error::plain_error(
            ErrKind::Bind,
            "ロックファイル "@ + path@ + " を開けない: "@ + why@,
        ),
{
    let mut detail = text::concat("ロックファイル ", path);
    detail.append(" を開けない: ");
    detail.append(why);
    AppError::new(ErrKind::Bind, detail)
}

/// The error for a socket without a fixed port that cannot be opened.
pub fn ephemeral_error(addr: &str, why: &str) -> (e: AppError)
    ensures
        e@ == error::plain_error(ErrKind::Bind, addr@ + " へのバインド失敗: "@ + why@),
{
    let mut detail = text::concat(addr, " へのバインド失敗: ");
    detail.append(why);
    AppError::new(ErrKind::Bind, detail)
}

/// The error for a multicast group that cannot be joined.
pub fn join_error(iface: &str, why: &str) -> (e: AppError)
    ensures
        e@ == error::plain_error(
            ErrKind::Network,
            MULTICAST_ADDR@ + " への join_multicast 失敗 (iface "@ + iface@ + "): "@ + why@,
        ),
{
    let mut detail = text::concat(MULTICAST_ADDR, " への join_multicast 失敗 (iface ");
    detail.append(iface);
    detail.append("): ");
    detail.append(why);
    AppError::new(ErrKind::Network, detail)
}

/// The error for a waiting time that cannot be set.
pub fn read_timeout_error(why: &str) -> (e: AppError)
    ensures
        e@ == error::plain_error(ErrKind::Network, "set_read_timeout 失敗: "@ + why@),
{
    AppError::new(ErrKind::Network, text::concat("set_read_timeout 失敗: ", why))
}

/// The error for a request that cannot be sent.
pub fn send_error(why: &str) -> (e: AppError)
    ensures
        e@ == error::plain_error(ErrKind::Network, "送信失敗: "@ + why@),
{
    AppError::new(ErrKind::Network, text::concat("送信失敗: ", why))
}

} // verus!
