//! What every subcommand makes of its words: what is sent, byte by byte, where to, and what becomes
//! of the reply.

use vstd::prelude::*;
use vstd::string::*;

use crate::cidr;
use crate::cli::{self, Command, ReportView, Task, TaskView};
use crate::codec::{self, Esv, PropertyView};
use crate::commands::{self, Endpoint};
use crate::error::{AppErrorView, ErrKind};
use crate::json::{self, Json};
use crate::listen;
use crate::properties;
use crate::schema;
use crate::text;
use crate::wire_laws;

verus! {

broadcast use vstd::string::group_string_axioms;

// ───────────────────────── words ─────────────────────────

/// An input error with the given detail and nothing else.
pub open spec fn input_error(e: AppErrorView, detail: Seq<char>) -> bool {
    e.kind == ErrKind::Usage && e.detail == detail && e.extra is None
}

/// A word stands for a service or an EPC exactly if it is the digits of one byte, and for an object
/// exactly if it is the digits of three.
pub proof fn law_words_in_digits(s: Seq<char>)
    ensures
        match codec::bytes_of_hex(s) {
            None => {
                &&& cli::esv_of(s) matches Err(e) && input_error(
                    e,
                    "ESV hex 不正: "@ + "hex 文字列が不正"@,
                )
                &&& cli::epc_of(s) matches Err(e) && input_error(
                    e,
                    "EPC hex 不正: "@ + "hex 文字列が不正"@,
                )
                &&& cli::eoj_of(s) matches Err(e) && input_error(
                    e,
                    "EOJ 不正: "@ + "hex 文字列が不正"@,
                )
            },
            Some(bytes) => {
                &&& bytes.len() == 1 ==> cli::esv_of(s) == Ok::<Esv, AppErrorView>(
                    Esv::of_code(bytes[0]),
                ) && cli::epc_of(s) == Ok::<u8, AppErrorView>(bytes[0])
                &&& bytes.len() != 1 ==> {
                    &&& cli::esv_of(s) matches Err(e) && input_error(
                        e,
                        "ESV は 1 バイト (2 hex 桁) 必須"@,
                    )
                    &&& cli::epc_of(s) matches Err(e) && input_error(
                        e,
                        "EPC は 1 バイト (2 hex 桁) 必須"@,
                    )
                }
                &&& bytes.len() == 3 ==> cli::eoj_of(s) == Ok::<Seq<u8>, AppErrorView>(bytes)
                &&& bytes.len() != 3 ==> (cli::eoj_of(s) matches Err(e) && input_error(
                    e,
                    "EOJ 不正: "@ + ("入力フィールド不正: "@
                        + "EOJ は 3 バイト (6 hex 桁) 必須"@),
                ))
            },
        },
{
}

/// A property is given as its EPC alone, or as its EPC and its data with a colon between them. With
/// nothing behind the colon it has no data.
pub proof fn law_property_words(epc: Seq<char>, edt: Seq<char>)
    requires
        !epc.contains(':'),
    ensures
        ({
            let alone = cli::prop_of(epc);
            let open = cli::prop_of(epc + seq![':']);
            let whole = cli::prop_of(epc + seq![':'] + edt);
            match cli::epc_of(epc) {
                Err(e) => {
                    &&& alone == Err::<PropertyView, AppErrorView>(e)
                    &&& open == Err::<PropertyView, AppErrorView>(e)
                    &&& whole == Err::<PropertyView, AppErrorView>(e)
                },
                Ok(code) => {
                    let bare = PropertyView { epc: code, edt: Seq::empty() };
                    &&& alone == Ok::<PropertyView, AppErrorView>(bare)
                    &&& open == Ok::<PropertyView, AppErrorView>(bare)
                    &&& edt.len() > 0 ==> match codec::bytes_of_hex(edt) {
                        Some(data) => whole == Ok::<PropertyView, AppErrorView>(
                            PropertyView { epc: code, edt: data },
                        ),
                        None => whole matches Err(e) && input_error(
                            e,
                            "EDT hex 不正 '"@ + edt + "': "@ + "hex 文字列が不正"@,
                        ),
                    }
                },
            }
        }),
{
    text::lemma_split(epc, ':');
    if text::split(epc, ':') is Some {
        let (a, b) = text::split(epc, ':')->0;
        assert(epc[a.len() as int] == ':');
    }
    text::lemma_split_joined(epc, ':', Seq::empty());
    text::lemma_split_joined(epc, ':', edt);
    assert(epc + seq![':'] + Seq::<char>::empty() =~= epc + seq![':']);
}

/// A word stands for an EPC by its name, or else by its digits; a value by its name in the range of
/// its EPC, or else by its digits. Anything else is an input error.
pub proof fn law_names_before_digits(eoj: Seq<u8>, epc: u8, s: Seq<char>)
    ensures
        match (properties::code_in(properties::names_of(eoj), s), codec::bytes_of_hex(s)) {
            (Some(code), _) => cli::resolved_epc(eoj, s) == Ok::<u8, AppErrorView>(code),
            (None, Some(bytes)) => if bytes.len() == 1 {
                cli::resolved_epc(eoj, s) == Ok::<u8, AppErrorView>(bytes[0])
            } else {
                cli::resolved_epc(eoj, s) matches Err(e) && input_error(
                    e,
                    "EPC 解決失敗 '"@ + s + "' (既知の名前でも 2 hex 桁でもない)"@,
                )
            },
            (None, None) => cli::resolved_epc(eoj, s) matches Err(e) && input_error(
                e,
                "EPC 解決失敗 '"@ + s + "' (既知の名前でも 2 hex 桁でもない)"@,
            ),
        },
        match (properties::byte_of_name(eoj, epc, s), codec::bytes_of_hex(s)) {
            (Some(byte), _) => cli::resolved_edt(eoj, epc, s) == Ok::<Seq<u8>, AppErrorView>(
                seq![byte],
            ),
            (None, Some(bytes)) => cli::resolved_edt(eoj, epc, s) == Ok::<Seq<u8>, AppErrorView>(
                bytes,
            ),
            (None, None) => cli::resolved_edt(eoj, epc, s) matches Err(e) && input_error(
                e,
                "EDT hex 不正: "@ + "hex 文字列が不正"@,
            ),
        },
{
}

/// Of several words for EPCs each stands for its own, in their order; the first word that stands for
/// none decides the error.
pub proof fn law_epc_words(eoj: Seq<u8>, words: Seq<Seq<char>>)
    ensures
        match cli::resolved_epcs(eoj, words) {
            Ok(epcs) => {
                &&& epcs.len() == words.len()
                &&& forall|i: int|
                    0 <= i < words.len() ==> cli::resolved_epc(eoj, #[trigger] words[i]) == Ok::<
                        u8,
                        AppErrorView,
                    >(epcs[i])
            },
            Err(e) => exists|i: int|
                0 <= i < words.len() && cli::resolved_epc(eoj, #[trigger] words[i]) == Err::<
                    u8,
                    AppErrorView,
                >(e) && forall|j: int|
                    0 <= j < i ==> cli::resolved_epc(eoj, #[trigger] words[j]) is Ok,
        },
    decreases words.len(),
{
    if words.len() > 0 {
        let front = words.drop_last();
        law_epc_words(eoj, front);
        assert(forall|i: int| 0 <= i < front.len() ==> #[trigger] front[i] == words[i]);
        assert(words[words.len() - 1] == words.last());
        match cli::resolved_epcs(eoj, front) {
            Err(e) => {
                let i = choose|i: int|
                    0 <= i < front.len() && cli::resolved_epc(eoj, #[trigger] front[i]) == Err::<
                        u8,
                        AppErrorView,
                    >(e) && forall|j: int|
                        0 <= j < i ==> cli::resolved_epc(eoj, #[trigger] front[j]) is Ok;
                assert(words[i] == front[i]);
                assert forall|j: int| 0 <= j < i implies cli::resolved_epc(
                    eoj,
                    #[trigger] words[j],
                ) is Ok by {
                    assert(front[j] == words[j]);
                }
            },
            Ok(before) => {
                assert forall|j: int| 0 <= j < front.len() implies cli::resolved_epc(
                    eoj,
                    #[trigger] words[j],
                ) == Ok::<u8, AppErrorView>(before[j]) by {
                    assert(front[j] == words[j]);
                }
            },
        }
    }
}

/// Of several words for properties each stands for its own, in their order; the first word that
/// stands for none decides the error.
pub proof fn law_prop_words(words: Seq<Seq<char>>)
    ensures
        match cli::props_of(words) {
            Ok(props) => {
                &&& props.len() == words.len()
                &&& forall|i: int|
                    0 <= i < words.len() ==> cli::prop_of(#[trigger] words[i]) == Ok::<
                        PropertyView,
                        AppErrorView,
                    >(props[i])
            },
            Err(e) => exists|i: int|
                0 <= i < words.len() && cli::prop_of(#[trigger] words[i]) == Err::<
                    PropertyView,
                    AppErrorView,
                >(e) && forall|j: int| 0 <= j < i ==> cli::prop_of(#[trigger] words[j]) is Ok,
        },
    decreases words.len(),
{
    if words.len() > 0 {
        let front = words.drop_last();
        law_prop_words(front);
        assert(forall|i: int| 0 <= i < front.len() ==> #[trigger] front[i] == words[i]);
        assert(words[words.len() - 1] == words.last());
        match cli::props_of(front) {
            Err(e) => {
                let i = choose|i: int|
                    0 <= i < front.len() && cli::prop_of(#[trigger] front[i]) == Err::<
                        PropertyView,
                        AppErrorView,
                    >(e) && forall|j: int| 0 <= j < i ==> cli::prop_of(#[trigger] front[j]) is Ok;
                assert(words[i] == front[i]);
                assert forall|j: int| 0 <= j < i implies cli::prop_of(#[trigger] words[j]) is Ok by {
                    assert(front[j] == words[j]);
                }
            },
            Ok(before) => {
                assert forall|j: int| 0 <= j < front.len() implies cli::prop_of(#[trigger] words[j])
                    == Ok::<PropertyView, AppErrorView>(before[j]) by {
                    assert(front[j] == words[j]);
                }
            },
        }
    }
}

// ───────────────────────── frames ─────────────────────────

/// One more EPC of a request to read is two more bytes: the EPC and an empty length.
proof fn lemma_asked_more(epcs: Seq<u8>, epc: u8)
    ensures
        codec::props_bytes(commands::asked(epcs.push(epc))) == codec::props_bytes(
            commands::asked(epcs),
        ) + seq![epc, 0u8],
{
    let p = PropertyView { epc, edt: Seq::empty() };
    wire_laws::law_properties_written(commands::asked(epcs), p);
    assert(commands::asked(epcs.push(epc)) =~= commands::asked(epcs).push(p));
    assert(codec::props_bytes(commands::asked(epcs)) + seq![epc, 0u8] + p.edt
        =~= codec::props_bytes(commands::asked(epcs)) + seq![epc, 0u8]);
}

/// A request to read holds two bytes for each EPC.
pub(crate) proof fn lemma_asked_len(epcs: Seq<u8>)
    ensures
        codec::props_bytes(commands::asked(epcs)).len() == 2 * epcs.len(),
    decreases epcs.len(),
{
    if epcs.len() > 0 {
        lemma_asked_len(epcs.drop_last());
        lemma_asked_more(epcs.drop_last(), epcs.last());
        assert(epcs.drop_last().push(epcs.last()) =~= epcs);
    }
}

/// The EPCs of a request to read stand one after the other, each with an empty length.
pub proof fn law_asked_bytes(epcs: Seq<u8>, i: int)
    requires
        0 <= i < epcs.len(),
    ensures
        codec::props_bytes(commands::asked(epcs)).len() == 2 * epcs.len(),
        codec::props_bytes(commands::asked(epcs))[2 * i] == epcs[i],
        codec::props_bytes(commands::asked(epcs))[2 * i + 1] == 0,
    decreases epcs.len(),
{
    let front = epcs.drop_last();
    lemma_asked_len(epcs);
    lemma_asked_len(front);
    lemma_asked_more(front, epcs.last());
    assert(front.push(epcs.last()) =~= epcs);
    if i < front.len() {
        law_asked_bytes(front, i);
    }
}

/// The request is sent from the object 05 FF 01 to the given object, with the given service and
/// number of properties.
pub open spec fn request_head(tid: u16, eoj: Seq<u8>, service: u8, count: int) -> Seq<u8> {
    seq![
        0x10u8,
        0x81u8,
        (tid as int / 256) as u8,
        (tid as int % 256) as u8,
        0x05u8,
        0xFFu8,
        0x01u8,
    ] + eoj + seq![service, count as u8]
}

/// The bytes of a request to read some EPCs.
proof fn lemma_get_bytes(tid: u16, eoj: Seq<u8>, epcs: Seq<u8>)
    requires
        eoj.len() == 3,
        epcs.len() <= 255,
    ensures
        codec::frame_bytes(commands::get_frame(tid, eoj, epcs)) == request_head(
            tid,
            eoj,
            0x62,
            epcs.len() as int,
        ) + codec::props_bytes(commands::asked(epcs)),
        request_head(tid, eoj, 0x62, epcs.len() as int).len() == 12,
{
    wire_laws::law_standard_written(
        tid,
        commands::controller_object(),
        eoj,
        Esv::Get,
        commands::asked(epcs),
    );
    assert(codec::frame_bytes(commands::get_frame(tid, eoj, epcs)) =~= request_head(
        tid,
        eoj,
        0x62,
        epcs.len() as int,
    ) + codec::props_bytes(commands::asked(epcs)));
}

/// The bytes of a request to write one property.
proof fn lemma_set_bytes(tid: u16, eoj: Seq<u8>, esv: Esv, epc: u8, edt: Seq<u8>)
    requires
        edt.len() <= 255,
    ensures
        codec::frame_bytes(
            codec::standard_frame(
                tid,
                commands::controller_object(),
                eoj,
                esv,
                seq![PropertyView { epc, edt }],
            ),
        ) == request_head(tid, eoj, esv.code(), 1) + seq![epc, edt.len() as u8] + edt,
{
    let p = PropertyView { epc, edt };
    wire_laws::law_standard_written(tid, commands::controller_object(), eoj, esv, seq![p]);
    wire_laws::law_properties_written(Seq::empty(), p);
    assert(Seq::<PropertyView>::empty().push(p) =~= seq![p]);
    assert(codec::frame_bytes(
        codec::standard_frame(tid, commands::controller_object(), eoj, esv, seq![p]),
    ) =~= request_head(tid, eoj, esv.code(), 1) + seq![epc, edt.len() as u8] + edt);
}

/// A frame that does not fit is not sent, with an error that says why; any other frame is sent as
/// its bytes.
pub proof fn law_sent_bytes(f: codec::FrameView)
    ensures
        match codec::excess(f) {
            None => commands::sent_bytes(f) == Ok::<Seq<u8>, AppErrorView>(codec::frame_bytes(f)),
            Some(why) => commands::sent_bytes(f) matches Err(e) && input_error(
                e,
                "フレーム構築失敗: "@ + why.message(),
            ),
        },
{
}

// ───────────────────────── subcommands ─────────────────────────

/// A request goes to its device, or to 224.0.23.0 where it is a multicast, always to port 3610.
pub proof fn law_destination(dst: Endpoint, ip: Seq<char>, multicast: bool)
    ensures
        cli::goes_to(dst, ip, multicast) <==> dst.port == 3610 && dst.ip@ == (if multicast {
            "224.0.23.0"@
        } else {
            ip
        }),
{
}

/// A task is what its model says: what is shown, what is sent, where to, how long is waited, and
/// what becomes of the reply.
pub proof fn law_task_matches(task: Task, v: TaskView)
    requires
        task.is(v),
    ensures
        match task {
            Task::Show(value) => v == TaskView::Show(json::json_of(value)),
            Task::Discover { hosts, frame, window_ms } => v == (TaskView::Discover {
                hosts: match hosts {
                    Some(list) => Some(cidr::ips_view(list@)),
                    None => None,
                },
                frame: frame@,
                window_ms,
            }),
            Task::Ask(r) => v matches TaskView::Ask(w) && {
                &&& w.ip == r.ip@
                &&& w.frame == r.frame@
                &&& w.timeout_ms == r.timeout_ms
                &&& w.report == r.report@
                &&& cli::goes_to(r.dst, w.ip, w.multicast)
            },
            Task::Tell { dst, frame, value } => v matches TaskView::Tell {
                ip,
                multicast,
                frame: f,
                value: tree,
            } && {
                &&& cli::goes_to(dst, ip, multicast)
                &&& f == frame@
                &&& tree == json::json_of(value)
            },
            Task::Listen(l) => v == TaskView::Listen(l@),
        },
{
}

/// The reply to each kind of request is printed by the subcommand that asked, for the object that
/// was asked.
pub proof fn law_reported(eoj: Seq<u8>, ip: Seq<char>, sent: Seq<u8>, data: Seq<u8>)
    ensures
        cli::reported(ReportView::Get(eoj), ip, sent, data) == commands::get_result(ip, eoj, data),
        cli::reported(ReportView::Write(eoj), ip, sent, data) == commands::set_result(
            ip,
            eoj,
            data,
        ),
        cli::reported(ReportView::Describe(eoj), ip, sent, data) == commands::describe_result(
            ip,
            eoj,
            data,
        ),
        cli::reported(ReportView::Raw, ip, sent, data) == Ok::<Json, AppErrorView>(
            commands::raw_output(ip, sent, data),
        ),
{
}

/// `get` asks the object of its second word for the EPCs of the others, in their order: service
/// 0x62, each EPC without data. An object or an EPC that cannot be read is an error, the object
/// first.
pub proof fn law_get_command(
    ip: String,
    eoj: String,
    epc: Vec<String>,
    multicast: bool,
    timeout_ms: u64,
    iface: Option<Seq<u8>>,
    tid: u16,
    i: int,
)
    ensures
        ({
            let task = cli::task_of(
                Command::Get { ip, eoj, epc, multicast, timeout_ms },
                iface,
                tid,
            );
            let words = epc@.map_values(|s: String| s@);
            match cli::eoj_of(eoj@) {
                Err(e) => task == Err::<TaskView, AppErrorView>(e),
                Ok(object) => match cli::resolved_epcs(object, words) {
                    Err(e) => task == Err::<TaskView, AppErrorView>(e),
                    Ok(epcs) => task matches Ok(TaskView::Ask(r)) && {
                        let bytes = codec::frame_bytes(r.frame);
                        &&& r.ip == ip@
                        &&& r.multicast == multicast
                        &&& r.timeout_ms == timeout_ms
                        &&& r.report == ReportView::Get(object)
                        &&& epcs.len() <= 255 ==> {
                            &&& bytes.len() == 12 + 2 * epcs.len()
                            &&& bytes.take(12) == request_head(
                                tid,
                                object,
                                0x62,
                                epcs.len() as int,
                            )
                            &&& 0 <= i < epcs.len() ==> bytes[12 + 2 * i] == epcs[i] && bytes[13 + 2
                                * i] == 0
                        }
                        &&& epcs.len() > 255 ==> codec::excess(r.frame) is Some
                    },
                },
            }
        }),
{
    let words = epc@.map_values(|s: String| s@);
    assert(words =~= json::owned_texts(epc@));
    if let Ok(object) = cli::eoj_of(eoj@) {
        if let Ok(epcs) = cli::resolved_epcs(object, words) {
            if epcs.len() <= 255 {
                let head = request_head(tid, object, 0x62, epcs.len() as int);
                let tail = codec::props_bytes(commands::asked(epcs));
                lemma_get_bytes(tid, object, epcs);
                lemma_asked_len(epcs);
                assert((head + tail).take(12) =~= head);
                if 0 <= i < epcs.len() {
                    law_asked_bytes(epcs, i);
                    assert((head + tail)[12 + 2 * i] == tail[2 * i]);
                    assert((head + tail)[13 + 2 * i] == tail[2 * i + 1]);
                }
            }
        }
    }
}

/// `set` writes the data of its last word to the EPC of the third one of the object of the second:
/// service 0x61 where a response is waited for, and 0x60 where none is. What cannot be read is an
/// error: the object first, then the EPC, then the data.
pub proof fn law_set_command(
    ip: String,
    eoj: String,
    epc: String,
    edt: String,
    multicast: bool,
    nowait: bool,
    timeout_ms: u64,
    iface: Option<Seq<u8>>,
    tid: u16,
)
    ensures
        ({
            let task = cli::task_of(
                Command::Write { ip, eoj, epc, edt, multicast, nowait, timeout_ms },
                iface,
                tid,
            );
            match cli::eoj_of(eoj@) {
                Err(e) => task == Err::<TaskView, AppErrorView>(e),
                Ok(object) => match cli::resolved_epc(object, epc@) {
                    Err(e) => task == Err::<TaskView, AppErrorView>(e),
                    Ok(code) => match cli::resolved_edt(object, code, edt@) {
                        Err(e) => task == Err::<TaskView, AppErrorView>(e),
                        Ok(data) => {
                            &&& !nowait ==> (task matches Ok(TaskView::Ask(r)) && {
                                &&& r.ip == ip@
                                &&& r.multicast == multicast
                                &&& r.timeout_ms == timeout_ms
                                &&& r.report == ReportView::Write(object)
                                &&& data.len() <= 255 ==> codec::frame_bytes(r.frame)
                                    == request_head(tid, object, 0x61, 1) + seq![
                                    code,
                                    data.len() as u8,
                                ] + data
                                &&& data.len() > 255 ==> codec::excess(r.frame) is Some
                            })
                            &&& nowait ==> (task matches Ok(
                                TaskView::Tell { ip: to, multicast: group, frame, value },
                            ) && {
                                &&& to == ip@
                                &&& group == multicast
                                &&& value == commands::set_nowait_output(ip@, object, code, data)
                                &&& data.len() <= 255 ==> codec::frame_bytes(frame)
                                    == request_head(tid, object, 0x60, 1) + seq![
                                    code,
                                    data.len() as u8,
                                ] + data
                                &&& data.len() > 255 ==> codec::excess(frame) is Some
                            })
                        },
                    },
                },
            }
        }),
{
    if let Ok(object) = cli::eoj_of(eoj@) {
        if let Ok(code) = cli::resolved_epc(object, epc@) {
            if let Ok(data) = cli::resolved_edt(object, code, edt@) {
                if data.len() <= 255 {
                    lemma_set_bytes(tid, object, Esv::SetC, code, data);
                    lemma_set_bytes(tid, object, Esv::SetI, code, data);
                } else {
                    let p = PropertyView { epc: code, edt: data };
                    assert(seq![p][0].edt.len() > 255);
                }
            }
        }
    }
}

/// `describe` asks the object of its second word for the EPCs 0x9F, 0x9E and 0x9D, in this order.
pub proof fn law_describe_command(
    ip: String,
    eoj: String,
    multicast: bool,
    timeout_ms: u64,
    iface: Option<Seq<u8>>,
    tid: u16,
)
    ensures
        ({
            let task = cli::task_of(
                Command::Describe { ip, eoj, multicast, timeout_ms },
                iface,
                tid,
            );
            match cli::eoj_of(eoj@) {
                Err(e) => task == Err::<TaskView, AppErrorView>(e),
                Ok(object) => task matches Ok(TaskView::Ask(r)) && {
                    &&& r.ip == ip@
                    &&& r.multicast == multicast
                    &&& r.timeout_ms == timeout_ms
                    &&& r.report == ReportView::Describe(object)
                    &&& codec::frame_bytes(r.frame) == request_head(tid, object, 0x62, 3) + seq![
                        0x9Fu8,
                        0u8,
                        0x9Eu8,
                        0u8,
                        0x9Du8,
                        0u8,
                    ]
                },
            }
        }),
{
    if let Ok(object) = cli::eoj_of(eoj@) {
        let epcs = seq![0x9Fu8, 0x9Eu8, 0x9Du8];
        let tail = codec::props_bytes(commands::asked(epcs));
        lemma_get_bytes(tid, object, epcs);
        law_asked_bytes(epcs, 0);
        law_asked_bytes(epcs, 1);
        law_asked_bytes(epcs, 2);
        assert(tail =~= seq![0x9Fu8, 0u8, 0x9Eu8, 0u8, 0x9Du8, 0u8]);
    }
}

/// `raw` sends the service and the properties of its words, in their order, to the object of its
/// second word: from the given object, or from 05 FF 01. What cannot be read is an error: the
/// receiver first, then the service, the sender and the properties.
pub proof fn law_raw_command(
    ip: String,
    eoj: String,
    esv: String,
    props: Vec<String>,
    seoj: Option<String>,
    multicast: bool,
    timeout_ms: u64,
    iface: Option<Seq<u8>>,
    tid: u16,
)
    ensures
        ({
            let task = cli::task_of(
                Command::Raw { ip, eoj, esv, props, seoj, multicast, timeout_ms },
                iface,
                tid,
            );
            let words = props@.map_values(|s: String| s@);
            let sender = match seoj {
                Some(s) => cli::eoj_of(s@),
                None => Ok(seq![0x05u8, 0xFFu8, 0x01u8]),
            };
            match (cli::eoj_of(eoj@), cli::esv_of(esv@), sender, cli::props_of(words)) {
                (Err(e), _, _, _) => task == Err::<TaskView, AppErrorView>(e),
                (Ok(_), Err(e), _, _) => task == Err::<TaskView, AppErrorView>(e),
                (Ok(_), Ok(_), Err(e), _) => task == Err::<TaskView, AppErrorView>(e),
                (Ok(_), Ok(_), Ok(_), Err(e)) => task == Err::<TaskView, AppErrorView>(e),
                (Ok(object), Ok(service), Ok(from), Ok(list)) => task matches Ok(TaskView::Ask(r))
                    && {
                    &&& r.ip == ip@
                    &&& r.multicast == multicast
                    &&& r.timeout_ms == timeout_ms
                    &&& r.report == ReportView::Raw
                    &&& list.len() <= 255 ==> codec::frame_bytes(r.frame) == seq![
                        0x10u8,
                        0x81u8,
                        (tid as int / 256) as u8,
                        (tid as int % 256) as u8,
                    ] + from + object + seq![service.code(), list.len() as u8]
                        + codec::props_bytes(list)
                    &&& list.len() > 255 ==> codec::excess(r.frame) is Some
                },
            }
        }),
{
    let words = props@.map_values(|s: String| s@);
    assert(words =~= json::owned_texts(props@));
    let sender = match seoj {
        Some(s) => cli::eoj_of(s@),
        None => Ok(seq![0x05u8, 0xFFu8, 0x01u8]),
    };
    assert(sender == cli::sender_of(cli::opt_text(seoj)));
    if let (Ok(object), Ok(service), Ok(from), Ok(list)) = (
        cli::eoj_of(eoj@),
        cli::esv_of(esv@),
        sender,
        cli::props_of(words),
    ) {
        if list.len() <= 255 {
            wire_laws::law_standard_written(tid, from, object, service, list);
        }
    }
}

/// `discover` asks the node profiles 0E F0 01 for the EPC 0xD6, on the hosts of the sweep and on the
/// multicast group. A network that cannot be read is an error.
pub proof fn law_discover_command(
    cidr: Option<String>,
    timeout_ms: u64,
    iface: Option<Seq<u8>>,
    tid: u16,
)
    ensures
        ({
            let task = cli::task_of(Command::Discover { cidr, timeout_ms }, iface, tid);
            let network = match cidr {
                Some(s) => Some(s@),
                None => None,
            };
            match cidr::sweep_of(network, iface) {
                Err(e) => task == Err::<TaskView, AppErrorView>(e),
                Ok(hosts) => task matches Ok(
                    TaskView::Discover { hosts: h, frame, window_ms },
                ) && {
                    &&& h == hosts
                    &&& window_ms == timeout_ms
                    &&& codec::frame_bytes(frame) == request_head(
                        tid,
                        seq![0x0Eu8, 0xF0u8, 0x01u8],
                        0x62,
                        1,
                    ) + seq![0xD6u8, 0u8]
                },
            }
        }),
{
    let object = seq![0x0Eu8, 0xF0u8, 0x01u8];
    let epcs = seq![0xD6u8];
    let tail = codec::props_bytes(commands::asked(epcs));
    lemma_get_bytes(tid, object, epcs);
    law_asked_bytes(epcs, 0);
    assert(tail =~= seq![0xD6u8, 0u8]);
}

/// `listen` waits for the given number of notifications, at least one, with the given limit and the
/// filters of its words. What cannot be read is an error: the number first, then the object, then
/// the EPC.
pub proof fn law_listen_command(
    count: usize,
    timeout_ms: u64,
    from: Option<String>,
    eoj: Option<String>,
    epc: Option<String>,
    iface: Option<Seq<u8>>,
    tid: u16,
)
    ensures
        ({
            let task = cli::task_of(
                Command::Listen { count, timeout_ms, from, eoj, epc },
                iface,
                tid,
            );
            &&& count == 0 ==> (task matches Err(e) && input_error(e, "--count は 1 以上"@))
            &&& count > 0 ==> {
                &&& eoj matches Some(s) ==> (listen::filter_of(s@) matches Err(e) ==> task
                    == Err::<TaskView, AppErrorView>(e))
                &&& (eoj matches Some(s) ==> listen::filter_of(s@) is Ok) ==> {
                    &&& epc matches Some(s) ==> (cli::epc_of(s@) matches Err(e) ==> task == Err::<
                        TaskView,
                        AppErrorView,
                    >(e))
                    &&& (epc matches Some(s) ==> cli::epc_of(s@) is Ok) ==> (task matches Ok(
                        TaskView::Listen(l),
                    ) && {
                        &&& l.count == count
                        &&& l.timeout_ms == timeout_ms
                        &&& l.events.len() == 0
                        &&& l.filter.from == (match from {
                            Some(s) => Some(s@),
                            None => None,
                        })
                        &&& l.filter.eoj == (match eoj {
                            Some(s) => Some(listen::filter_of(s@)->Ok_0),
                            None => None,
                        })
                        &&& l.filter.epc == (match epc {
                            Some(s) => Some(cli::epc_of(s@)->Ok_0),
                            None => None,
                        })
                    })
                }
            }
        }),
{
}

/// `schema` shows the schema of the given name, or all of them, and nothing is sent.
pub proof fn law_schema_command(target: Option<String>, iface: Option<Seq<u8>>, tid: u16)
    ensures
        cli::task_of(Command::Schema { target }, iface, tid) == Ok::<TaskView, AppErrorView>(
            TaskView::Show(
                schema::schema_for(
                    match target {
                        Some(s) => Some(s@),
                        None => None,
                    },
                ),
            ),
        ),
{
}

/// An object filter is the digits of two bytes, for a class, or of three, for one object.
pub proof fn law_filter_words(s: Seq<char>)
    ensures
        match codec::bytes_of_hex(s) {
            None => listen::filter_of(s) matches Err(e) && input_error(
                e,
                "EOJ フィルタ hex 不正: "@ + "hex 文字列が不正"@,
            ),
            Some(bytes) => if bytes.len() == 2 || bytes.len() == 3 {
                listen::filter_of(s) == Ok::<Seq<u8>, AppErrorView>(bytes)
            } else {
                listen::filter_of(s) matches Err(e) && input_error(
                    e,
                    "EOJ フィルタは 4 hex 桁 (クラス) か 6 hex 桁 (完全一致)"@,
                )
            },
        },
{
}

} // verus!
