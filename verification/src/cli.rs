//! The command line: what the words of a subcommand mean, and what is to be done for it.

use serde_json::Value;
use vstd::prelude::*;
use vstd::slice::*;
use vstd::string::*;

use crate::cidr::{self, Ipv4};
use crate::codec::{self, CodecErrorView, Eoj, Esv, Frame, FrameView, Property, PropertyView};
use crate::commands::{self, Endpoint};
use crate::error::{self, AppError, AppErrorView, ErrKind};
use crate::json::{self, Json};
use crate::listen::{self, EojFilter, FilterView, Listener, ListenerView};
use crate::net;
use crate::properties;
use crate::schema;
use crate::text;

verus! {

broadcast use vstd::string::group_string_axioms;

// ───────────────────────── words ─────────────────────────

/// The error for a word that is not made of pairs of hexadecimal digits.
pub open spec fn bad_hex(what: Seq<char>) -> AppErrorView {
    error::plain_error(ErrKind::Usage, what + CodecErrorView::BadHex.message())
}

/// The error for a word with a detail.
pub open spec fn usage(detail: Seq<char>) -> AppErrorView {
    error::plain_error(ErrKind::Usage, detail)
}

/// An input error.
fn usage_error(what: &str, why: &str) -> (e: AppError)
    ensures
        e@ == usage(what@ + why@),
{
    AppError::new(ErrKind::Usage, text::concat(what, why))
}

/// The service that a word stands for: two digits.
pub open spec fn esv_of(s: Seq<char>) -> Result<Esv, AppErrorView> {
    match codec::bytes_of_hex(s) {
        None => Err(bad_hex("ESV hex 不正: "@)),
        Some(bytes) => if bytes.len() != 1 {
            Err(usage("ESV は 1 バイト (2 hex 桁) 必須"@))
        } else {
            Ok(Esv::of_code(bytes[0]))
        },
    }
}

/// The service that a word stands for. A code without a name is let through.
pub fn parse_esv(s: &str) -> (r: Result<Esv, AppError>)
    ensures
        match r {
            Ok(esv) => esv_of(s@) == Ok::<Esv, AppErrorView>(esv),
            Err(e) => esv_of(s@) == Err::<Esv, AppErrorView>(e@),
        },
{
    let bytes = match codec::hex_to_bytes(s) {
        Ok(bytes) => bytes,
        Err(e) => {
            return Err(usage_error("ESV hex 不正: ", e.to_string().as_str()));
        },
    };
    if bytes.len() != 1 {
        return Err(
            AppError::new(ErrKind::Usage, "ESV は 1 バイト (2 hex 桁) 必須".to_owned()),
        );
    }
    Ok(Esv::from_u8(bytes[0]))
}

/// The EPC that a word stands for: two digits.
pub open spec fn epc_of(s: Seq<char>) -> Result<u8, AppErrorView> {
    match codec::bytes_of_hex(s) {
        None => Err(bad_hex("EPC hex 不正: "@)),
        Some(bytes) => if bytes.len() != 1 {
            Err(usage("EPC は 1 バイト (2 hex 桁) 必須"@))
        } else {
            Ok(bytes[0])
        },
    }
}

/// The EPC that a word stands for.
pub fn parse_epc_one(s: &str) -> (r: Result<u8, AppError>)
    ensures
        match r {
            Ok(epc) => epc_of(s@) == Ok::<u8, AppErrorView>(epc),
            Err(e) => epc_of(s@) == Err::<u8, AppErrorView>(e@),
        },
{
    let bytes = match codec::hex_to_bytes(s) {
        Ok(bytes) => bytes,
        Err(e) => {
            return Err(usage_error("EPC hex 不正: ", e.to_string().as_str()));
        },
    };
    if bytes.len() != 1 {
        return Err(
            AppError::new(ErrKind::Usage, "EPC は 1 バイト (2 hex 桁) 必須".to_owned()),
        );
    }
    Ok(bytes[0])
}

/// The object that a word stands for.
pub open spec fn eoj_of(s: Seq<char>) -> Result<Seq<u8>, AppErrorView> {
    match codec::eoj_of_hex(s) {
        Ok(eoj) => Ok(eoj),
        Err(e) => Err(usage("EOJ 不正: "@ + e.message())),
    }
}

/// The object that a word stands for.
pub fn parse_eoj(s: &str) -> (r: Result<Eoj, AppError>)
    ensures
        match r {
            Ok(eoj) => eoj_of(s@) == Ok::<Seq<u8>, AppErrorView>(eoj@),
            Err(e) => eoj_of(s@) == Err::<Seq<u8>, AppErrorView>(e@),
        },
{
    match Eoj::from_hex(s) {
        Ok(eoj) => Ok(eoj),
        Err(e) => Err(usage_error("EOJ 不正: ", e.to_string().as_str())),
    }
}

/// The property that a word stands for: an EPC, and data behind a colon or none.
pub open spec fn prop_of(s: Seq<char>) -> Result<PropertyView, AppErrorView> {
    let (epc_word, edt_word) = match text::split(s, ':') {
        Some(parts) => parts,
        None => (s, Seq::empty()),
    };
    match epc_of(epc_word) {
        Err(e) => Err(e),
        Ok(epc) => if edt_word.len() == 0 {
            Ok(PropertyView { epc, edt: Seq::empty() })
        } else {
            match codec::bytes_of_hex(edt_word) {
                None => Err(bad_hex("EDT hex 不正 '"@ + edt_word + "': "@)),
                Some(edt) => Ok(PropertyView { epc, edt }),
            }
        },
    }
}

/// The property that a word such as `80` or `80:30` stands for.
pub fn parse_prop_arg(s: &str) -> (r: Result<Property, AppError>)
    ensures
        match r {
            Ok(p) => prop_of(s@) == Ok::<PropertyView, AppErrorView>(p@),
            Err(e) => prop_of(s@) == Err::<PropertyView, AppErrorView>(e@),
        },
{
    let (epc_word, edt_word) = match text::split_once(s, ':') {
        Some(parts) => parts,
        None => (s.to_owned(), String::new()),
    };
    let epc = parse_epc_one(epc_word.as_str())?;
    if text::chars_of(edt_word.as_str()).len() == 0 {
        return Ok(Property::new(epc, Vec::new()));
    }
    match codec::hex_to_bytes(edt_word.as_str()) {
        Ok(edt) => Ok(Property::new(epc, edt)),
        Err(e) => {
            let mut what = text::concat("EDT hex 不正 '", edt_word.as_str());
            what.append("': ");
            Err(usage_error(what.as_str(), e.to_string().as_str()))
        },
    }
}

/// The EPC that a word stands for: a name, or else two digits.
pub open spec fn resolved_epc(eoj: Seq<u8>, token: Seq<char>) -> Result<u8, AppErrorView> {
    match properties::code_in(properties::names_of(eoj), token) {
        Some(epc) => Ok(epc),
        None => match epc_of(token) {
            Ok(epc) => Ok(epc),
            Err(_) => Err(
                usage(
                    "EPC 解決失敗 '"@ + token + "' (既知の名前でも 2 hex 桁でもない)"@,
                ),
            ),
        },
    }
}

/// The EPC that a word stands for: a name such as `power`, or else two digits.
pub fn resolve_epc(eoj: Eoj, token: &str) -> (r: Result<u8, AppError>)
    ensures
        match r {
            Ok(epc) => resolved_epc(eoj@, token@) == Ok::<u8, AppErrorView>(epc),
            Err(e) => resolved_epc(eoj@, token@) == Err::<u8, AppErrorView>(e@),
        },
{
    if let Some(epc) = properties::epc_for_name(eoj, token) {
        return Ok(epc);
    }
    match parse_epc_one(token) {
        Ok(epc) => Ok(epc),
        Err(_) => {
            let what = text::concat("EPC 解決失敗 '", token);
            Err(usage_error(what.as_str(), "' (既知の名前でも 2 hex 桁でもない)"))
        },
    }
}

/// The EPCs that some words stand for, or the error of the first word that stands for none.
pub open spec fn resolved_epcs(eoj: Seq<u8>, items: Seq<Seq<char>>) -> Result<
    Seq<u8>,
    AppErrorView,
>
    decreases items.len(),
{
    if items.len() == 0 {
        Ok(Seq::empty())
    } else {
        match resolved_epcs(eoj, items.drop_last()) {
            Err(e) => Err(e),
            Ok(before) => match resolved_epc(eoj, items.last()) {
                Err(e) => Err(e),
                Ok(epc) => Ok(before.push(epc)),
            },
        }
    }
}

/// The EPCs that some words stand for.
pub fn resolve_epcs(eoj: Eoj, items: &Vec<String>) -> (r: Result<Vec<u8>, AppError>)
    ensures
        match r {
            Ok(epcs) => resolved_epcs(eoj@, json::owned_texts(items@)) == Ok::<
                Seq<u8>,
                AppErrorView,
            >(epcs@),
            Err(e) => resolved_epcs(eoj@, json::owned_texts(items@)) == Err::<
                Seq<u8>,
                AppErrorView,
            >(e@),
        },
{
    let ghost words = json::owned_texts(items@);
    let mut epcs: Vec<u8> = Vec::with_capacity(items.len());
    assert(words.take(0) =~= Seq::empty());
    for i in 0..items.len()
        invariant
            words == json::owned_texts(items@),
            resolved_epcs(eoj@, words.take(i as int)) == Ok::<Seq<u8>, AppErrorView>(epcs@),
    {
        assert(words.take(i + 1).drop_last() =~= words.take(i as int));
        assert(words.take(i + 1).last() == items@[i as int]@);
        match resolve_epc(eoj, items[i].as_str()) {
            Ok(epc) => {
                epcs.push(epc);
            },
            Err(e) => {
                proof {
                    lemma_first_error(eoj@, words, i + 1, e@);
                }
                return Err(e);
            },
        }
    }
    assert(words.take(words.len() as int) =~= words);
    Ok(epcs)
}

/// An error among the first words is the error of all words.
proof fn lemma_first_error(eoj: Seq<u8>, words: Seq<Seq<char>>, n: int, e: AppErrorView)
    requires
        0 <= n <= words.len(),
        resolved_epcs(eoj, words.take(n)) == Err::<Seq<u8>, AppErrorView>(e),
    ensures
        resolved_epcs(eoj, words) == Err::<Seq<u8>, AppErrorView>(e),
    decreases words.len() - n,
{
    if n == words.len() {
        assert(words.take(n) =~= words);
    } else {
        assert(words.take(n + 1).drop_last() =~= words.take(n));
        lemma_first_error(eoj, words, n + 1, e);
    }
}

/// The data that a word stands for: a name of the EPC's range, or else digits.
pub open spec fn resolved_edt(eoj: Seq<u8>, epc: u8, token: Seq<char>) -> Result<
    Seq<u8>,
    AppErrorView,
> {
    match properties::byte_of_name(eoj, epc, token) {
        Some(byte) => Ok(seq![byte]),
        None => match codec::bytes_of_hex(token) {
            Some(edt) => Ok(edt),
            None => Err(bad_hex("EDT hex 不正: "@)),
        },
    }
}

/// The data that a word stands for: a name such as `close`, or else digits.
pub fn resolve_edt(eoj: Eoj, epc: u8, token: &str) -> (r: Result<Vec<u8>, AppError>)
    ensures
        match r {
            Ok(edt) => resolved_edt(eoj@, epc, token@) == Ok::<Seq<u8>, AppErrorView>(edt@),
            Err(e) => resolved_edt(eoj@, epc, token@) == Err::<Seq<u8>, AppErrorView>(e@),
        },
{
    if let Some(byte) = properties::edt_for_name(eoj, epc, token) {
        let edt = vec![byte];
        assert(edt@ =~= seq![byte]);
        return Ok(edt);
    }
    match codec::hex_to_bytes(token) {
        Ok(edt) => Ok(edt),
        Err(e) => Err(usage_error("EDT hex 不正: ", e.to_string().as_str())),
    }
}

/// The properties that some words stand for, or the error of the first word that stands for none.
pub open spec fn props_of(items: Seq<Seq<char>>) -> Result<Seq<PropertyView>, AppErrorView>
    decreases items.len(),
{
    if items.len() == 0 {
        Ok(Seq::empty())
    } else {
        match props_of(items.drop_last()) {
            Err(e) => Err(e),
            Ok(before) => match prop_of(items.last()) {
                Err(e) => Err(e),
                Ok(p) => Ok(before.push(p)),
            },
        }
    }
}

/// The properties that some words stand for.
fn parse_prop_args(items: &Vec<String>) -> (r: Result<Vec<Property>, AppError>)
    ensures
        match r {
            Ok(props) => props_of(json::owned_texts(items@)) == Ok::<
                Seq<PropertyView>,
                AppErrorView,
            >(codec::props_view(props@)),
            Err(e) => props_of(json::owned_texts(items@)) == Err::<
                Seq<PropertyView>,
                AppErrorView,
            >(e@),
        },
{
    let ghost words = json::owned_texts(items@);
    let mut props: Vec<Property> = Vec::with_capacity(items.len());
    assert(words.take(0) =~= Seq::empty());
    assert(codec::props_view(props@) =~= Seq::empty());
    for i in 0..items.len()
        invariant
            words == json::owned_texts(items@),
            props_of(words.take(i as int)) == Ok::<Seq<PropertyView>, AppErrorView>(
                codec::props_view(props@),
            ),
    {
        assert(words.take(i + 1).drop_last() =~= words.take(i as int));
        assert(words.take(i + 1).last() == items@[i as int]@);
        match parse_prop_arg(items[i].as_str()) {
            Ok(p) => {
                let ghost before = codec::props_view(props@);
                props.push(p);
                assert(codec::props_view(props@) =~= before.push(p@));
            },
            Err(e) => {
                proof {
                    lemma_first_prop_error(words, i + 1, e@);
                }
                return Err(e);
            },
        }
    }
    assert(words.take(words.len() as int) =~= words);
    Ok(props)
}

/// An error among the first words is the error of all words.
proof fn lemma_first_prop_error(words: Seq<Seq<char>>, n: int, e: AppErrorView)
    requires
        0 <= n <= words.len(),
        props_of(words.take(n)) == Err::<Seq<PropertyView>, AppErrorView>(e),
    ensures
        props_of(words) == Err::<Seq<PropertyView>, AppErrorView>(e),
    decreases words.len() - n,
{
    if n == words.len() {
        assert(words.take(n) =~= words);
    } else {
        assert(words.take(n + 1).drop_last() =~= words.take(n));
        lemma_first_prop_error(words, n + 1, e);
    }
}

// ───────────────────────── subcommands ─────────────────────────

/// A subcommand and its words. Times are in milliseconds.
pub enum Command {
    /// Find nodes, by a sweep of a network and a multicast request.
    Discover { cidr: Option<String>, timeout_ms: u64 },
    /// Read properties.
    Get { ip: String, eoj: String, epc: Vec<String>, multicast: bool, timeout_ms: u64 },
    /// Write a property, and wait for the response or not.
    Write {
        ip: String,
        eoj: String,
        epc: String,
        edt: String,
        multicast: bool,
        nowait: bool,
        timeout_ms: u64,
    },
    /// Read the property maps.
    Describe { ip: String, eoj: String, multicast: bool, timeout_ms: u64 },
    /// Send any service with any properties.
    Raw {
        ip: String,
        eoj: String,
        esv: String,
        props: Vec<String>,
        seoj: Option<String>,
        multicast: bool,
        timeout_ms: u64,
    },
    /// Wait for notifications.
    Listen {
        count: usize,
        timeout_ms: u64,
        from: Option<String>,
        eoj: Option<String>,
        epc: Option<String>,
    },
    /// Print the schema of an output.
    Schema { target: Option<String> },
}

/// What is to be made of a reply.
#[derive(Clone, Copy, Debug)]
pub enum Report {
    Get(Eoj),
    Write(Eoj),
    Describe(Eoj),
    Raw,
}

/// The model of what is to be made of a reply.
pub enum ReportView {
    Get(Seq<u8>),
    Write(Seq<u8>),
    Describe(Seq<u8>),
    Raw,
}

impl View for Report {
    type V = ReportView;

    open spec fn view(&self) -> ReportView {
        match *self {
            Report::Get(eoj) => ReportView::Get(eoj@),
            Report::Write(eoj) => ReportView::Write(eoj@),
            Report::Describe(eoj) => ReportView::Describe(eoj@),
            Report::Raw => ReportView::Raw,
        }
    }
}

/// A request to one device.
pub struct Request {
    /// The address that the reply comes from.
    pub ip: String,
    /// Where the request goes.
    pub dst: Endpoint,
    /// The frame to send.
    pub frame: Frame,
    /// How long to wait for the reply.
    pub timeout_ms: u64,
    /// What is to be made of the reply.
    pub report: Report,
}

/// The model of a request to one device.
pub struct RequestView {
    pub ip: Seq<char>,
    pub multicast: bool,
    pub frame: FrameView,
    pub timeout_ms: u64,
    pub report: ReportView,
}

/// What is sent to an endpoint goes to the device with the given address, or to the multicast group.
pub open spec fn goes_to(dst: Endpoint, ip: Seq<char>, multicast: bool) -> bool {
    &&& dst.ip@ == (if multicast {
        net::MULTICAST_ADDR@
    } else {
        ip
    })
    &&& dst.port == net::ECHONET_PORT
}

impl Request {
    /// The request is the given one.
    pub open spec fn is(self, v: RequestView) -> bool {
        &&& self.ip@ == v.ip
        &&& goes_to(self.dst, v.ip, v.multicast)
        &&& self.frame@ == v.frame
        &&& self.timeout_ms == v.timeout_ms
        &&& self.report@ == v.report
    }

    /// A request to a device.
    fn new(
        ip: String,
        multicast: bool,
        frame: Frame,
        timeout_ms: u64,
        report: Report,
    ) -> (request: Request)
        ensures
            request.is(
                RequestView { ip: ip@, multicast, frame: frame@, timeout_ms, report: report@ },
            ),
    {
        let dst = commands::dst_for(ip.as_str(), multicast);
        Request { ip, dst, frame, timeout_ms, report }
    }

    /// What is printed of a reply to the bytes that were sent.
    pub fn report(&self, sent: &[u8], data: &[u8]) -> (r: Result<Value, AppError>)
        ensures
            commands::result_view(r) == reported(self.report@, self.ip@, sent@, data@),
    {
        match self.report {
            Report::Get(eoj) => commands::get_response(self.ip.as_str(), eoj, data),
            Report::Write(eoj) => commands::set_response(self.ip.as_str(), eoj, data),
            Report::Describe(eoj) => commands::describe_response(self.ip.as_str(), eoj, data),
            Report::Raw => Ok(commands::raw_response(self.ip.as_str(), sent, data)),
        }
    }
}

/// What is printed of a reply.
pub open spec fn reported(
    report: ReportView,
    ip: Seq<char>,
    sent: Seq<u8>,
    data: Seq<u8>,
) -> Result<Json, AppErrorView> {
    match report {
        ReportView::Get(eoj) => commands::get_result(ip, eoj, data),
        ReportView::Write(eoj) => commands::set_result(ip, eoj, data),
        ReportView::Describe(eoj) => commands::describe_result(ip, eoj, data),
        ReportView::Raw => Ok(commands::raw_output(ip, sent, data)),
    }
}

/// What is to be done for a subcommand.
pub enum Task {
    /// Print a value. Nothing is sent.
    Show(Value),
    /// Send a frame to the hosts, where there are any, and to the multicast group, and collect what
    /// comes back.
    Discover { hosts: Option<Vec<Ipv4>>, frame: Frame, window_ms: u64 },
    /// Send a request to one device and wait for the reply.
    Ask(Request),
    /// Send a frame, from any port, without waiting for a reply, and print a value once it is sent.
    Tell { dst: Endpoint, frame: Frame, value: Value },
    /// Wait for notifications.
    Listen(Listener),
}

/// The model of what is to be done for a subcommand.
pub enum TaskView {
    Show(Json),
    Discover { hosts: Option<Seq<Seq<u8>>>, frame: FrameView, window_ms: u64 },
    Ask(RequestView),
    Tell { ip: Seq<char>, multicast: bool, frame: FrameView, value: Json },
    Listen(ListenerView),
}

impl Task {
    /// The task is the given one.
    pub open spec fn is(self, v: TaskView) -> bool {
        match (self, v) {
            (Task::Show(value), TaskView::Show(tree)) => json::json_of(value) == tree,
            (
                Task::Discover { hosts, frame, window_ms },
                TaskView::Discover { hosts: h, frame: f, window_ms: w },
            ) => {
                &&& h == (match hosts {
                    Some(list) => Some(cidr::ips_view(list@)),
                    None => None,
                })
                &&& frame@ == f
                &&& window_ms == w
            },
            (Task::Ask(request), TaskView::Ask(r)) => request.is(r),
            (
                Task::Tell { dst, frame, value },
                TaskView::Tell { ip, multicast, frame: f, value: tree },
            ) => {
                &&& goes_to(dst, ip, multicast)
                &&& frame@ == f
                &&& json::json_of(value) == tree
            },
            (Task::Listen(l), TaskView::Listen(v)) => l@ == v,
            _ => false,
        }
    }
}

/// The model of an optional text.
pub open spec fn opt_text(s: Option<String>) -> Option<Seq<char>> {
    match s {
        Some(s) => Some(s@),
        None => None,
    }
}

/// What is to be done for `get`.
pub open spec fn get_task(
    tid: u16,
    ip: Seq<char>,
    eoj: Seq<char>,
    epc: Seq<Seq<char>>,
    multicast: bool,
    timeout_ms: u64,
) -> Result<TaskView, AppErrorView> {
    match eoj_of(eoj) {
        Err(e) => Err(e),
        Ok(eoj) => match resolved_epcs(eoj, epc) {
            Err(e) => Err(e),
            Ok(epcs) => Ok(
                TaskView::Ask(
                    RequestView {
                        ip,
                        multicast,
                        frame: commands::get_frame(tid, eoj, epcs),
                        timeout_ms,
                        report: ReportView::Get(eoj),
                    },
                ),
            ),
        },
    }
}

/// What is to be done for `set`. Without waiting for a response there is nothing to ask.
pub open spec fn set_task(
    tid: u16,
    ip: Seq<char>,
    eoj: Seq<char>,
    epc: Seq<char>,
    edt: Seq<char>,
    multicast: bool,
    nowait: bool,
    timeout_ms: u64,
) -> Result<TaskView, AppErrorView> {
    match eoj_of(eoj) {
        Err(e) => Err(e),
        Ok(eoj) => match resolved_epc(eoj, epc) {
            Err(e) => Err(e),
            Ok(epc) => match resolved_edt(eoj, epc, edt) {
                Err(e) => Err(e),
                Ok(edt) => if nowait {
                    Ok(
                        TaskView::Tell {
                            ip,
                            multicast,
                            frame: commands::set_nowait_frame(tid, eoj, epc, edt),
                            value: commands::set_nowait_output(ip, eoj, epc, edt),
                        },
                    )
                } else {
                    Ok(
                        TaskView::Ask(
                            RequestView {
                                ip,
                                multicast,
                                frame: commands::set_frame(tid, eoj, epc, edt),
                                timeout_ms,
                                report: ReportView::Write(eoj),
                            },
                        ),
                    )
                },
            },
        },
    }
}

/// What is to be done for `describe`.
pub open spec fn describe_task(
    tid: u16,
    ip: Seq<char>,
    eoj: Seq<char>,
    multicast: bool,
    timeout_ms: u64,
) -> Result<TaskView, AppErrorView> {
    match eoj_of(eoj) {
        Err(e) => Err(e),
        Ok(eoj) => Ok(
            TaskView::Ask(
                RequestView {
                    ip,
                    multicast,
                    frame: commands::get_frame(
                        tid,
                        eoj,
                        seq![
                            commands::EPC_GET_MAP,
                            commands::EPC_SET_MAP,
                            commands::EPC_INF_MAP,
                        ],
                    ),
                    timeout_ms,
                    report: ReportView::Describe(eoj),
                },
            ),
        ),
    }
}

/// The sender of a raw request: the controller unless another one is given.
pub open spec fn sender_of(seoj: Option<Seq<char>>) -> Result<Seq<u8>, AppErrorView> {
    match seoj {
        Some(s) => eoj_of(s),
        None => Ok(commands::controller_object()),
    }
}

/// What is to be done for `raw`.
pub open spec fn raw_task(
    tid: u16,
    ip: Seq<char>,
    eoj: Seq<char>,
    esv: Seq<char>,
    props: Seq<Seq<char>>,
    seoj: Option<Seq<char>>,
    multicast: bool,
    timeout_ms: u64,
) -> Result<TaskView, AppErrorView> {
    match eoj_of(eoj) {
        Err(e) => Err(e),
        Ok(deoj) => match esv_of(esv) {
            Err(e) => Err(e),
            Ok(esv) => match sender_of(seoj) {
                Err(e) => Err(e),
                Ok(seoj) => match props_of(props) {
                    Err(e) => Err(e),
                    Ok(props) => Ok(
                        TaskView::Ask(
                            RequestView {
                                ip,
                                multicast,
                                frame: codec::standard_frame(tid, seoj, deoj, esv, props),
                                timeout_ms,
                                report: ReportView::Raw,
                            },
                        ),
                    ),
                },
            },
        },
    }
}

/// What is to be done for `listen`. At least one notification has to be wanted.
pub open spec fn listen_task(
    count: usize,
    timeout_ms: u64,
    from: Option<Seq<char>>,
    eoj: Option<Seq<char>>,
    epc: Option<Seq<char>>,
) -> Result<TaskView, AppErrorView> {
    if count == 0 {
        Err(usage("--count は 1 以上"@))
    } else {
        match listened_eoj(eoj) {
            Err(e) => Err(e),
            Ok(eoj) => match listened_epc(epc) {
                Err(e) => Err(e),
                Ok(epc) => Ok(
                    TaskView::Listen(
                        ListenerView {
                            count: count as nat,
                            timeout_ms,
                            filter: FilterView { from, eoj, epc },
                            events: Seq::empty(),
                        },
                    ),
                ),
            },
        }
    }
}

/// The object or class that is listened to.
pub open spec fn listened_eoj(eoj: Option<Seq<char>>) -> Result<Option<Seq<u8>>, AppErrorView> {
    match eoj {
        None => Ok(None),
        Some(s) => match listen::filter_of(s) {
            Ok(want) => Ok(Some(want)),
            Err(e) => Err(e),
        },
    }
}

/// The EPC that is listened to.
pub open spec fn listened_epc(epc: Option<Seq<char>>) -> Result<Option<u8>, AppErrorView> {
    match epc {
        None => Ok(None),
        Some(s) => match epc_of(s) {
            Ok(epc) => Ok(Some(epc)),
            Err(e) => Err(e),
        },
    }
}

/// What is to be done for `discover`.
pub open spec fn discover_task(
    tid: u16,
    cidr: Option<Seq<char>>,
    iface: Option<Seq<u8>>,
    window_ms: u64,
) -> Result<TaskView, AppErrorView> {
    match cidr::sweep_of(cidr, iface) {
        Err(e) => Err(e),
        Ok(hosts) => Ok(
            TaskView::Discover {
                hosts,
                frame: commands::get_frame(
                    tid,
                    commands::node_profile_object(),
                    seq![commands::EPC_INSTANCE_LIST],
                ),
                window_ms,
            },
        ),
    }
}

/// What is to be done for a subcommand, or what is wrong with its words.
pub open spec fn task_of(command: Command, iface: Option<Seq<u8>>, tid: u16) -> Result<
    TaskView,
    AppErrorView,
> {
    match command {
        Command::Discover { cidr, timeout_ms } => discover_task(
            tid,
            opt_text(cidr),
            iface,
            timeout_ms,
        ),
        Command::Get { ip, eoj, epc, multicast, timeout_ms } => get_task(
            tid,
            ip@,
            eoj@,
            json::owned_texts(epc@),
            multicast,
            timeout_ms,
        ),
        Command::Write { ip, eoj, epc, edt, multicast, nowait, timeout_ms } => set_task(
            tid,
            ip@,
            eoj@,
            epc@,
            edt@,
            multicast,
            nowait,
            timeout_ms,
        ),
        Command::Describe { ip, eoj, multicast, timeout_ms } => describe_task(
            tid,
            ip@,
            eoj@,
            multicast,
            timeout_ms,
        ),
        Command::Raw { ip, eoj, esv, props, seoj, multicast, timeout_ms } => raw_task(
            tid,
            ip@,
            eoj@,
            esv@,
            json::owned_texts(props@),
            opt_text(seoj),
            multicast,
            timeout_ms,
        ),
        Command::Listen { count, timeout_ms, from, eoj, epc } => listen_task(
            count,
            timeout_ms,
            opt_text(from),
            opt_text(eoj),
            opt_text(epc),
        ),
        Command::Schema { target } => Ok(TaskView::Show(schema::schema_for(opt_text(target)))),
    }
}

/// An optional string as an optional slice.
fn borrowed(s: &Option<String>) -> (r: Option<&str>)
    ensures
        cidr::text_view(r) == opt_text(*s),
{
    match s {
        Some(s) => Some(s.as_str()),
        None => None,
    }
}

/// What is to be done for a subcommand. `iface` is the address of the own interface and `tid` the
/// TID of the request.
pub fn run(command: Command, iface: Option<Ipv4>, tid: u16) -> (r: Result<Task, AppError>)
    ensures
        match r {
            Ok(task) => task_of(command, cidr::ip_view(iface), tid) matches Ok(v) && task.is(v),
            Err(e) => task_of(command, cidr::ip_view(iface), tid) == Err::<TaskView, AppErrorView>(
                e@,
            ),
        },
{
    match command {
        Command::Discover { cidr, timeout_ms } => {
            let hosts = cidr::sweep_hosts(borrowed(&cidr), iface)?;
            Ok(
                Task::Discover {
                    hosts,
                    frame: commands::discover_request(tid),
                    window_ms: timeout_ms,
                },
            )
        },
        Command::Get { ip, eoj, epc, multicast, timeout_ms } => {
            let eoj = parse_eoj(eoj.as_str())?;
            let epcs = resolve_epcs(eoj, &epc)?;
            let frame = commands::get_request(tid, eoj, epcs.as_slice());
            Ok(Task::Ask(Request::new(ip, multicast, frame, timeout_ms, Report::Get(eoj))))
        },
        Command::Write { ip, eoj, epc, edt, multicast, nowait, timeout_ms } => {
            let eoj = parse_eoj(eoj.as_str())?;
            let epc = resolve_epc(eoj, epc.as_str())?;
            let edt = resolve_edt(eoj, epc, edt.as_str())?;
            if nowait {
                let sent = slice_to_vec(edt.as_slice());
                let value = commands::set_nowait_report(ip.as_str(), eoj, epc, sent);
                let dst = commands::dst_for(ip.as_str(), multicast);
                let frame = commands::set_nowait_request(tid, eoj, epc, edt);
                return Ok(Task::Tell { dst, frame, value });
            }
            let frame = commands::set_request(tid, eoj, epc, edt);
            Ok(Task::Ask(Request::new(ip, multicast, frame, timeout_ms, Report::Write(eoj))))
        },
        Command::Describe { ip, eoj, multicast, timeout_ms } => {
            let eoj = parse_eoj(eoj.as_str())?;
            let frame = commands::describe_request(tid, eoj);
            Ok(Task::Ask(Request::new(ip, multicast, frame, timeout_ms, Report::Describe(eoj))))
        },
        Command::Raw { ip, eoj, esv, props, seoj, multicast, timeout_ms } => {
            let deoj = parse_eoj(eoj.as_str())?;
            let esv = parse_esv(esv.as_str())?;
            let seoj = match &seoj {
                Some(s) => Some(parse_eoj(s.as_str())?),
                None => None,
            };
            let props = parse_prop_args(&props)?;
            let frame = commands::raw_request(tid, deoj, esv, seoj, props);
            Ok(Task::Ask(Request::new(ip, multicast, frame, timeout_ms, Report::Raw)))
        },
        Command::Listen { count, timeout_ms, from, eoj, epc } => {
            if count == 0 {
                return Err(AppError::new(ErrKind::Usage, "--count は 1 以上".to_owned()));
            }
            let eoj_filter = match &eoj {
                Some(s) => Some(EojFilter::from_hex(s.as_str())?),
                None => None,
            };
            let epc = match &epc {
                Some(s) => Some(parse_epc_one(s.as_str())?),
                None => None,
            };
            Ok(Task::Listen(Listener::new(count, timeout_ms, from, eoj_filter, epc)))
        },
        Command::Schema { target } => Ok(Task::Show(schema::for_target(borrowed(&target)))),
    }
}

} // verus!
