//! The ECHONET Lite frame codec.
//!
//! A frame is laid out as follows:
//! ```text
//! EHD1(1) EHD2(1) TID(2) | EDATA
//! EDATA, specified format: SEOJ(3) DEOJ(3) ESV(1) OPC(1) [EPC(1) PDC(1) EDT(PDC)]×OPC
//! EDATA, SETGET services:  SEOJ(3) DEOJ(3) ESV(1) OPCSet(1) set… OPCGet(1) get…
//! ```
//!
//! Unknown classes, EPCs, ESVs and EHD2 values are kept as they are, without loss: this layer
//! always holds the raw bytes of a property, and decoding them is the work of another layer.

use vstd::prelude::*;
use vstd::slice::*;
use vstd::string::*;

use crate::text;

verus! {

broadcast use vstd::string::group_string_axioms;

/// The first header byte of every frame.
pub const EHD1: u8 = 0x10;

/// EDATA holds properties, in the format that ECHONET Lite specifies.
pub const EHD2_FORMAT1: u8 = 0x81;

/// EDATA is in an arbitrary format and cannot be parsed in general.
pub const EHD2_FORMAT2: u8 = 0x82;

// ───────────────────────── objects ─────────────────────────

/// An ECHONET object: class group, class and instance.
#[derive(Clone, Copy, PartialEq, Eq, Hash, Debug)]
pub struct Eoj(pub [u8; 3]);

impl View for Eoj {
    type V = Seq<u8>;

    open spec fn view(&self) -> Seq<u8> {
        self.0@
    }
}

impl Eoj {
    /// The class group code.
    pub fn class_group(&self) -> (code: u8)
        ensures
            code == self@[0],
    {
        self.0[0]
    }

    /// The class code.
    pub fn class(&self) -> (code: u8)
        ensures
            code == self@[1],
    {
        self.0[1]
    }

    /// The instance number.
    pub fn instance(&self) -> (number: u8)
        ensures
            number == self@[2],
    {
        self.0[2]
    }

    /// Reads an object from six hexadecimal digits such as `013001`.
    pub fn from_hex(s: &str) -> (r: Result<Eoj, CodecError>)
        ensures
            match r {
                Ok(eoj) => eoj_of_hex(s@) == Ok::<Seq<u8>, CodecErrorView>(eoj@),
                Err(e) => eoj_of_hex(s@) == Err::<Seq<u8>, CodecErrorView>(e@),
            },
    {
        let bytes = hex_to_bytes(s)?;
        if bytes.len() != 3 {
            return Err(CodecError::BadField("EOJ は 3 バイト (6 hex 桁) 必須"));
        }
        let eoj = Eoj([bytes[0], bytes[1], bytes[2]]);
        assert(eoj@ =~= bytes@);
        Ok(eoj)
    }

    /// The object as six lower-case hexadecimal digits.
    pub fn to_hex(self) -> (s: String)
        ensures
            s@ == text::lower_hex(self@),
    {
        bytes_to_hex(&self.0)
    }
}

/// What `Eoj::from_hex` reads.
pub open spec fn eoj_of_hex(s: Seq<char>) -> Result<Seq<u8>, CodecErrorView> {
    match bytes_of_hex(s) {
        None => Err(CodecErrorView::BadHex),
        Some(bytes) => if bytes.len() != 3 {
            Err(CodecErrorView::BadField("EOJ は 3 バイト (6 hex 桁) 必須"@))
        } else {
            Ok(bytes)
        },
    }
}

// ───────────────────────── services ─────────────────────────

/// An ECHONET Lite service (ESV). A code without a name is kept as `Unknown`.
#[derive(Clone, Copy, PartialEq, Eq, Structural, Debug)]
pub enum Esv {
    SetI,
    SetC,
    Get,
    InfReq,
    SetGet,
    SetRes,
    GetRes,
    Inf,
    InfC,
    InfCRes,
    SetGetRes,
    SetISna,
    SetCSna,
    GetSna,
    InfSna,
    SetGetSna,
    Unknown(u8),
}

impl Esv {
    /// The service with the given code.
    pub open spec fn of_code(v: u8) -> Esv {
        if v == 0x60 {
            Esv::SetI
        } else if v == 0x61 {
            Esv::SetC
        } else if v == 0x62 {
            Esv::Get
        } else if v == 0x63 {
            Esv::InfReq
        } else if v == 0x6E {
            Esv::SetGet
        } else if v == 0x71 {
            Esv::SetRes
        } else if v == 0x72 {
            Esv::GetRes
        } else if v == 0x73 {
            Esv::Inf
        } else if v == 0x74 {
            Esv::InfC
        } else if v == 0x7A {
            Esv::InfCRes
        } else if v == 0x7E {
            Esv::SetGetRes
        } else if v == 0x50 {
            Esv::SetISna
        } else if v == 0x51 {
            Esv::SetCSna
        } else if v == 0x52 {
            Esv::GetSna
        } else if v == 0x53 {
            Esv::InfSna
        } else if v == 0x5E {
            Esv::SetGetSna
        } else {
            Esv::Unknown(v)
        }
    }

    /// The code of the service.
    pub open spec fn code(self) -> u8 {
        match self {
            Esv::SetI => 0x60,
            Esv::SetC => 0x61,
            Esv::Get => 0x62,
            Esv::InfReq => 0x63,
            Esv::SetGet => 0x6E,
            Esv::SetRes => 0x71,
            Esv::GetRes => 0x72,
            Esv::Inf => 0x73,
            Esv::InfC => 0x74,
            Esv::InfCRes => 0x7A,
            Esv::SetGetRes => 0x7E,
            Esv::SetISna => 0x50,
            Esv::SetCSna => 0x51,
            Esv::GetSna => 0x52,
            Esv::InfSna => 0x53,
            Esv::SetGetSna => 0x5E,
            Esv::Unknown(v) => v,
        }
    }

    /// The services whose EDATA holds two lists of properties.
    pub open spec fn two_lists(self) -> bool {
        self == Esv::SetGet || self == Esv::SetGetRes || self == Esv::SetGetSna
    }

    /// A service that refuses a request: the high nibble of its code is 5.
    pub open spec fn refuses(self) -> bool {
        self.code() / 16 == 5
    }

    /// A response or a notification: the high nibble of its code is 7.
    pub open spec fn responds(self) -> bool {
        self.code() / 16 == 7
    }

    /// The short name of the service.
    pub open spec fn label(self) -> Seq<char> {
        match self {
            Esv::SetI => "SetI"@,
            Esv::SetC => "SetC"@,
            Esv::Get => "Get"@,
            Esv::InfReq => "InfReq"@,
            Esv::SetGet => "SetGet"@,
            Esv::SetRes => "SetRes"@,
            Esv::GetRes => "GetRes"@,
            Esv::Inf => "Inf"@,
            Esv::InfC => "InfC"@,
            Esv::InfCRes => "InfCRes"@,
            Esv::SetGetRes => "SetGetRes"@,
            Esv::SetISna => "SetISna"@,
            Esv::SetCSna => "SetCSna"@,
            Esv::GetSna => "GetSna"@,
            Esv::InfSna => "InfSna"@,
            Esv::SetGetSna => "SetGetSna"@,
            Esv::Unknown(v) => "Unknown(0x"@ + text::upper_hex(v) + ")"@,
        }
    }

    /// The service with the given code.
    pub fn from_u8(v: u8) -> (esv: Esv)
        ensures
            esv == Esv::of_code(v),
    {
        match v {
            0x60 => Esv::SetI,
            0x61 => Esv::SetC,
            0x62 => Esv::Get,
            0x63 => Esv::InfReq,
            0x6E => Esv::SetGet,
            0x71 => Esv::SetRes,
            0x72 => Esv::GetRes,
            0x73 => Esv::Inf,
            0x74 => Esv::InfC,
            0x7A => Esv::InfCRes,
            0x7E => Esv::SetGetRes,
            0x50 => Esv::SetISna,
            0x51 => Esv::SetCSna,
            0x52 => Esv::GetSna,
            0x53 => Esv::InfSna,
            0x5E => Esv::SetGetSna,
            other => Esv::Unknown(other),
        }
    }

    /// The code of the service.
    pub fn to_u8(self) -> (v: u8)
        ensures
            v == self.code(),
    {
        match self {
            Esv::SetI => 0x60,
            Esv::SetC => 0x61,
            Esv::Get => 0x62,
            Esv::InfReq => 0x63,
            Esv::SetGet => 0x6E,
            Esv::SetRes => 0x71,
            Esv::GetRes => 0x72,
            Esv::Inf => 0x73,
            Esv::InfC => 0x74,
            Esv::InfCRes => 0x7A,
            Esv::SetGetRes => 0x7E,
            Esv::SetISna => 0x50,
            Esv::SetCSna => 0x51,
            Esv::GetSna => 0x52,
            Esv::InfSna => 0x53,
            Esv::SetGetSna => 0x5E,
            Esv::Unknown(v) => v,
        }
    }

    /// Whether EDATA holds two lists of properties.
    pub fn is_setget(self) -> (r: bool)
        ensures
            r == self.two_lists(),
    {
        matches!(self, Esv::SetGet | Esv::SetGetRes | Esv::SetGetSna)
    }

    /// Whether the device refused the request (SNA).
    pub fn is_sna(self) -> (r: bool)
        ensures
            r == self.refuses(),
    {
        self.to_u8() / 16 == 5
    }

    /// Whether the service is a response or a notification.
    pub fn is_response(self) -> (r: bool)
        ensures
            r == self.responds(),
    {
        self.to_u8() / 16 == 7
    }

    /// The short name of the service, as it stands in JSON output.
    pub fn name(self) -> (s: String)
        ensures
            s@ == self.label(),
    {
        match self {
            Esv::SetI => "SetI".to_owned(),
            Esv::SetC => "SetC".to_owned(),
            Esv::Get => "Get".to_owned(),
            Esv::InfReq => "InfReq".to_owned(),
            Esv::SetGet => "SetGet".to_owned(),
            Esv::SetRes => "SetRes".to_owned(),
            Esv::GetRes => "GetRes".to_owned(),
            Esv::Inf => "Inf".to_owned(),
            Esv::InfC => "InfC".to_owned(),
            Esv::InfCRes => "InfCRes".to_owned(),
            Esv::SetGetRes => "SetGetRes".to_owned(),
            Esv::SetISna => "SetISna".to_owned(),
            Esv::SetCSna => "SetCSna".to_owned(),
            Esv::GetSna => "GetSna".to_owned(),
            Esv::InfSna => "InfSna".to_owned(),
            Esv::SetGetSna => "SetGetSna".to_owned(),
            Esv::Unknown(v) => {
                let mut s = "Unknown(0x".to_owned();
                s.append(text::to_upper_hex(v).as_str());
                s.append(")");
                s
            },
        }
    }
}

// ───────────────────────── frames ─────────────────────────

/// One property. Its PDC is the length of `edt`.
#[derive(Clone, PartialEq, Eq, Debug)]
pub struct Property {
    pub epc: u8,
    pub edt: Vec<u8>,
}

/// The model of a property.
#[verifier::ext_equal]
pub struct PropertyView {
    pub epc: u8,
    pub edt: Seq<u8>,
}

impl View for Property {
    type V = PropertyView;

    open spec fn view(&self) -> PropertyView {
        PropertyView { epc: self.epc, edt: self.edt@ }
    }
}

/// The models of the properties of a list.
pub open spec fn props_view(props: Seq<Property>) -> Seq<PropertyView> {
    props.map_values(|p: Property| p@)
}

impl Property {
    /// A property with the given data.
    pub fn new(epc: u8, edt: Vec<u8>) -> (p: Property)
        ensures
            p@ == (PropertyView { epc, edt: edt@ }),
    {
        Property { epc, edt }
    }

    /// A property without data, as a Get request holds it.
    pub fn get(epc: u8) -> (p: Property)
        ensures
            p@ == (PropertyView { epc, edt: Seq::empty() }),
    {
        Property { epc, edt: Vec::new() }
    }

    /// The PDC byte: the length of the data, in one byte.
    pub fn pdc(&self) -> (n: u8)
        ensures
            n == low_byte(self@.edt.len()),
    {
        (self.edt.len() % 256) as u8
    }

    /// A property with the same EPC and the same data.
    pub fn duplicate(&self) -> (p: Property)
        ensures
            p@ == self@,
    {
        Property { epc: self.epc, edt: slice_to_vec(self.edt.as_slice()) }
    }
}

/// The lowest byte of a number.
pub open spec fn low_byte(n: nat) -> u8 {
    (n % 256) as u8
}

/// The body of a frame.
#[derive(Clone, PartialEq, Eq, Debug)]
pub enum Edata {
    /// The specified format, with one list of properties.
    Standard { seoj: Eoj, deoj: Eoj, esv: Esv, props: Vec<Property> },
    /// The specified format of the SETGET services, with two lists of properties.
    SetGet {
        seoj: Eoj,
        deoj: Eoj,
        esv: Esv,
        set_props: Vec<Property>,
        get_props: Vec<Property>,
    },
    /// The arbitrary format: the raw bytes.
    Arbitrary(Vec<u8>),
}

/// The model of the body of a frame.
#[verifier::ext_equal]
pub enum EdataView {
    Standard { seoj: Seq<u8>, deoj: Seq<u8>, esv: Esv, props: Seq<PropertyView> },
    SetGet {
        seoj: Seq<u8>,
        deoj: Seq<u8>,
        esv: Esv,
        set_props: Seq<PropertyView>,
        get_props: Seq<PropertyView>,
    },
    Arbitrary(Seq<u8>),
}

impl View for Edata {
    type V = EdataView;

    open spec fn view(&self) -> EdataView {
        match *self {
            Edata::Standard { seoj, deoj, esv, props } => EdataView::Standard {
                seoj: seoj@,
                deoj: deoj@,
                esv,
                props: props_view(props@),
            },
            Edata::SetGet { seoj, deoj, esv, set_props, get_props } => EdataView::SetGet {
                seoj: seoj@,
                deoj: deoj@,
                esv,
                set_props: props_view(set_props@),
                get_props: props_view(get_props@),
            },
            Edata::Arbitrary(bytes) => EdataView::Arbitrary(bytes@),
        }
    }
}

/// A whole ECHONET Lite frame.
#[derive(Clone, PartialEq, Eq, Debug)]
pub struct Frame {
    pub ehd1: u8,
    pub ehd2: u8,
    pub tid: u16,
    pub edata: Edata,
}

/// The model of a frame.
#[verifier::ext_equal]
pub struct FrameView {
    pub ehd1: u8,
    pub ehd2: u8,
    pub tid: u16,
    pub edata: EdataView,
}

impl View for Frame {
    type V = FrameView;

    open spec fn view(&self) -> FrameView {
        FrameView { ehd1: self.ehd1, ehd2: self.ehd2, tid: self.tid, edata: self.edata@ }
    }
}

/// The model of a frame of the specified format with one list of properties.
pub open spec fn standard_frame(
    tid: u16,
    seoj: Seq<u8>,
    deoj: Seq<u8>,
    esv: Esv,
    props: Seq<PropertyView>,
) -> FrameView {
    FrameView {
        ehd1: EHD1,
        ehd2: EHD2_FORMAT1,
        tid,
        edata: EdataView::Standard { seoj, deoj, esv, props },
    }
}

impl Frame {
    /// A frame of the specified format with one list of properties.
    pub fn standard(tid: u16, seoj: Eoj, deoj: Eoj, esv: Esv, props: Vec<Property>) -> (f: Frame)
        ensures
            f@ == standard_frame(tid, seoj@, deoj@, esv, props_view(props@)),
    {
        Frame {
            ehd1: EHD1,
            ehd2: EHD2_FORMAT1,
            tid,
            edata: Edata::Standard { seoj, deoj, esv, props },
        }
    }

    /// The list of properties of a frame that has exactly one.
    pub fn props(&self) -> (r: Option<&[Property]>)
        ensures
            match r {
                Some(props) => self.edata matches Edata::Standard { props: own, .. } && props@ == own@,
                None => !(self.edata is Standard),
            },
    {
        match &self.edata {
            Edata::Standard { props, .. } => Some(props.as_slice()),
            _ => None,
        }
    }

    /// The service of a frame of the specified format.
    pub fn esv(&self) -> (r: Option<Esv>)
        ensures
            r == service(self@),
    {
        match &self.edata {
            Edata::Standard { esv, .. } => Some(*esv),
            Edata::SetGet { esv, .. } => Some(*esv),
            Edata::Arbitrary(_) => None,
        }
    }
}

/// The service of a frame, where its body is of the specified format.
pub open spec fn service(f: FrameView) -> Option<Esv> {
    match f.edata {
        EdataView::Standard { esv, .. } => Some(esv),
        EdataView::SetGet { esv, .. } => Some(esv),
        EdataView::Arbitrary(_) => None,
    }
}

// ───────────────────────── errors ─────────────────────────

/// Why bytes or text could not be read, or a frame not written.
#[derive(Debug, PartialEq, Eq)]
pub enum CodecError {
    /// The frame ends within the named field.
    Truncated(&'static str),
    /// The first header byte is not the expected one.
    BadEhd1(u8),
    /// An input field does not have the right form.
    BadField(&'static str),
    /// A text is not made of pairs of hexadecimal digits.
    BadHex,
    /// A PDC or an OPC would not fit in its byte.
    TooLong(&'static str),
}

/// The model of a codec error.
pub enum CodecErrorView {
    Truncated(Seq<char>),
    BadEhd1(u8),
    BadField(Seq<char>),
    BadHex,
    TooLong(Seq<char>),
}

impl View for CodecError {
    type V = CodecErrorView;

    open spec fn view(&self) -> CodecErrorView {
        match *self {
            CodecError::Truncated(w) => CodecErrorView::Truncated(w@),
            CodecError::BadEhd1(v) => CodecErrorView::BadEhd1(v),
            CodecError::BadField(w) => CodecErrorView::BadField(w@),
            CodecError::BadHex => CodecErrorView::BadHex,
            CodecError::TooLong(w) => CodecErrorView::TooLong(w@),
        }
    }
}

impl CodecErrorView {
    /// The message for a person to read.
    pub open spec fn message(self) -> Seq<char> {
        match self {
            CodecErrorView::Truncated(w) => "フレームが途中で切れている: "@ + w,
            CodecErrorView::BadEhd1(v) => "EHD1 が不正: 0x"@ + text::upper_hex(v)
                + " (期待 0x10)"@,
            CodecErrorView::BadField(w) => "入力フィールド不正: "@ + w,
            CodecErrorView::BadHex => "hex 文字列が不正"@,
            CodecErrorView::TooLong(w) => "サイズ上限超過: "@ + w,
        }
    }
}

impl CodecError {
    /// The message for a person to read.
    pub fn to_string(&self) -> (s: String)
        ensures
            s@ == self@.message(),
    {
        match self {
            CodecError::Truncated(w) => text::concat("フレームが途中で切れている: ", w),
            CodecError::BadEhd1(v) => {
                let mut s = "EHD1 が不正: 0x".to_owned();
                s.append(text::to_upper_hex(*v).as_str());
                s.append(" (期待 0x10)");
                s
            },
            CodecError::BadField(w) => text::concat("入力フィールド不正: ", w),
            CodecError::BadHex => "hex 文字列が不正".to_owned(),
            CodecError::TooLong(w) => text::concat("サイズ上限超過: ", w),
        }
    }
}

// ───────────────────────── the grammar of a frame ─────────────────────────

/// Reads `n` properties from the front of `bytes`; the rest of the bytes comes second.
pub open spec fn read_props(bytes: Seq<u8>, n: nat) -> Result<
    (Seq<PropertyView>, Seq<u8>),
    CodecErrorView,
>
    decreases n,
{
    if n == 0 {
        Ok((Seq::empty(), bytes))
    } else if bytes.len() < 1 {
        Err(CodecErrorView::Truncated("EPC"@))
    } else if bytes.len() < 2 {
        Err(CodecErrorView::Truncated("PDC"@))
    } else if bytes.len() < 2 + bytes[1] {
        Err(CodecErrorView::Truncated("EDT"@))
    } else {
        let first = PropertyView { epc: bytes[0], edt: bytes.subrange(2, 2 + bytes[1]) };
        match read_props(bytes.skip(2 + bytes[1]), (n - 1) as nat) {
            Ok((others, rest)) => Ok((seq![first] + others, rest)),
            Err(e) => Err(e),
        }
    }
}

/// Reads a count, in a field with the given label, and that many properties.
pub open spec fn read_block(bytes: Seq<u8>, label: Seq<char>) -> Result<
    (Seq<PropertyView>, Seq<u8>),
    CodecErrorView,
> {
    if bytes.len() < 1 {
        Err(CodecErrorView::Truncated(label))
    } else {
        read_props(bytes.skip(1), bytes[0] as nat)
    }
}

/// Reads the body of a frame of the specified format.
pub open spec fn read_specified(bytes: Seq<u8>) -> Result<EdataView, CodecErrorView> {
    if bytes.len() < 3 {
        Err(CodecErrorView::Truncated("SEOJ"@))
    } else if bytes.len() < 6 {
        Err(CodecErrorView::Truncated("DEOJ"@))
    } else if bytes.len() < 7 {
        Err(CodecErrorView::Truncated("ESV"@))
    } else {
        let seoj = bytes.subrange(0, 3);
        let deoj = bytes.subrange(3, 6);
        let esv = Esv::of_code(bytes[6]);
        if esv.two_lists() {
            match read_block(bytes.skip(7), "OPCSet"@) {
                Err(e) => Err(e),
                Ok((set_props, rest)) => match read_block(rest, "OPCGet"@) {
                    Err(e) => Err(e),
                    Ok((get_props, _)) => Ok(
                        EdataView::SetGet { seoj, deoj, esv, set_props, get_props },
                    ),
                },
            }
        } else {
            match read_block(bytes.skip(7), "OPC"@) {
                Err(e) => Err(e),
                Ok((props, _)) => Ok(EdataView::Standard { seoj, deoj, esv, props }),
            }
        }
    }
}

/// Reads a frame. Bytes after its last property are ignored.
pub open spec fn read_frame(bytes: Seq<u8>) -> Result<FrameView, CodecErrorView> {
    if bytes.len() < 1 {
        Err(CodecErrorView::Truncated("EHD1"@))
    } else if bytes[0] != EHD1 {
        Err(CodecErrorView::BadEhd1(bytes[0]))
    } else if bytes.len() < 2 {
        Err(CodecErrorView::Truncated("EHD2"@))
    } else if bytes.len() < 4 {
        Err(CodecErrorView::Truncated("TID"@))
    } else {
        let ehd2 = bytes[1];
        let tid = (bytes[2] * 256 + bytes[3]) as u16;
        if ehd2 == EHD2_FORMAT2 {
            Ok(FrameView { ehd1: EHD1, ehd2, tid, edata: EdataView::Arbitrary(bytes.skip(4)) })
        } else {
            match read_specified(bytes.skip(4)) {
                Ok(edata) => Ok(FrameView { ehd1: EHD1, ehd2, tid, edata }),
                Err(e) => Err(e),
            }
        }
    }
}

/// The bytes of one property: EPC, PDC and data.
pub open spec fn prop_bytes(p: PropertyView) -> Seq<u8> {
    seq![p.epc, low_byte(p.edt.len())] + p.edt
}

/// The bytes of the properties of a list, one after the other.
pub open spec fn props_bytes(props: Seq<PropertyView>) -> Seq<u8>
    decreases props.len(),
{
    if props.len() == 0 {
        Seq::empty()
    } else {
        props_bytes(props.drop_last()) + prop_bytes(props.last())
    }
}

/// The bytes of a list of properties: the count, in one byte, and the properties.
pub open spec fn block_bytes(props: Seq<PropertyView>) -> Seq<u8> {
    seq![low_byte(props.len())] + props_bytes(props)
}

/// The bytes of the body of a frame.
pub open spec fn edata_bytes(edata: EdataView) -> Seq<u8> {
    match edata {
        EdataView::Arbitrary(bytes) => bytes,
        EdataView::Standard { seoj, deoj, esv, props } => seoj + deoj + seq![esv.code()]
            + block_bytes(props),
        EdataView::SetGet { seoj, deoj, esv, set_props, get_props } => seoj + deoj + seq![
            esv.code(),
        ] + block_bytes(set_props) + block_bytes(get_props),
    }
}

/// The bytes of a frame.
pub open spec fn frame_bytes(f: FrameView) -> Seq<u8> {
    seq![f.ehd1, f.ehd2] + text::be_bytes(f.tid) + edata_bytes(f.edata)
}

// ───────────────────────── parse ─────────────────────────

/// Reads a frame from its bytes.
pub fn parse(buf: &[u8]) -> (r: Result<Frame, CodecError>)
    ensures
        match r {
            Ok(frame) => read_frame(buf@) == Ok::<FrameView, CodecErrorView>(frame@),
            Err(e) => read_frame(buf@) == Err::<FrameView, CodecErrorView>(e@),
        },
{
    let mut c = Cursor::new(buf);
    let ehd1 = c.u8("EHD1")?;
    if ehd1 != EHD1 {
        return Err(CodecError::BadEhd1(ehd1));
    }
    let ehd2 = c.u8("EHD2")?;
    let tid = c.u16("TID")?;
    assert(c.rest_view() =~= buf@.skip(4));
    if ehd2 == EHD2_FORMAT2 {
        return Ok(Frame { ehd1, ehd2, tid, edata: Edata::Arbitrary(slice_to_vec(c.rest())) });
    }
    let seoj = c.eoj("SEOJ")?;
    let deoj = c.eoj("DEOJ")?;
    let esv = Esv::from_u8(c.u8("ESV")?);
    proof {
        let body = buf@.skip(4);
        assert(seoj@ =~= body.subrange(0, 3));
        assert(deoj@ =~= body.subrange(3, 6));
        assert(c.rest_view() =~= body.skip(7));
    }
    if esv.is_setget() {
        let set_props = parse_block(&mut c, "OPCSet")?;
        let get_props = parse_block(&mut c, "OPCGet")?;
        Ok(Frame { ehd1, ehd2, tid, edata: Edata::SetGet { seoj, deoj, esv, set_props, get_props } })
    } else {
        let props = parse_block(&mut c, "OPC")?;
        Ok(Frame { ehd1, ehd2, tid, edata: Edata::Standard { seoj, deoj, esv, props } })
    }
}

/// Reads a count, in a field with the given label, and that many properties.
fn parse_block(c: &mut Cursor, label: &'static str) -> (r: Result<Vec<Property>, CodecError>)
    requires
        old(c).wf(),
    ensures
        final(c).wf(),
        match r {
            Ok(props) => read_block(old(c).rest_view(), label@) == Ok::<
                (Seq<PropertyView>, Seq<u8>),
                CodecErrorView,
            >((props_view(props@), final(c).rest_view())),
            Err(e) => read_block(old(c).rest_view(), label@) == Err::<
                (Seq<PropertyView>, Seq<u8>),
                CodecErrorView,
            >(e@),
        },
{
    let opc = c.u8(label)?;
    let ghost start = c.rest_view();
    let mut props: Vec<Property> = Vec::with_capacity(opc as usize);
    let mut i: u8 = 0;
    assert(props_view(props@) =~= Seq::empty());
    while i < opc
        invariant
            i <= opc,
            c.wf(),
            read_props(start, opc as nat) == (match read_props(c.rest_view(), (opc - i) as nat) {
                Ok((others, rest)) => Ok::<(Seq<PropertyView>, Seq<u8>), CodecErrorView>(
                    (props_view(props@) + others, rest),
                ),
                Err(e) => Err(e),
            }),
            read_block(old(c).rest_view(), label@) == read_props(start, opc as nat),
        decreases opc - i,
    {
        let ghost before = c.rest_view();
        let ghost done = props_view(props@);
        let epc = c.u8("EPC")?;
        let pdc = c.u8("PDC")?;
        let edt = slice_to_vec(c.take(pdc as usize, "EDT")?);
        proof {
            assert(before.skip(1)[0] == before[1]);
            assert(edt@ =~= before.subrange(2, 2 + before[1]));
            assert(c.rest_view() =~= before.skip(2 + before[1]));
        }
        props.push(Property { epc, edt });
        i += 1;
        proof {
            let first = PropertyView { epc: before[0], edt: before.subrange(2, 2 + before[1]) };
            assert(props_view(props@) =~= done.push(first));
            match read_props(c.rest_view(), (opc - i) as nat) {
                Ok((others, rest)) => {
                    assert(done + (seq![first] + others) =~= props_view(props@) + others);
                },
                Err(e) => {},
            }
        }
    }
    assert(props_view(props@) + Seq::empty() =~= props_view(props@));
    Ok(props)
}

// ───────────────────────── build ─────────────────────────

/// Writes a frame. A count or a length above 255 does not fit in its byte: such a frame is refused.
pub fn build(frame: &Frame) -> (r: Result<Vec<u8>, CodecError>)
    ensures
        match r {
            Ok(out) => excess(frame@) is None && out@ == frame_bytes(frame@),
            Err(e) => excess(frame@) == Some(e@),
        },
{
    check_lengths(frame)?;
    let mut out: Vec<u8> = Vec::with_capacity(16);
    out.push(frame.ehd1);
    out.push(frame.ehd2);
    out.push((frame.tid / 256) as u8);
    out.push((frame.tid % 256) as u8);
    let ghost header = seq![frame.ehd1, frame.ehd2] + text::be_bytes(frame.tid);
    assert(out@ =~= header);
    match &frame.edata {
        Edata::Arbitrary(bytes) => {
            append(&mut out, bytes.as_slice());
        },
        Edata::Standard { seoj, deoj, esv, props } => {
            append(&mut out, &seoj.0);
            append(&mut out, &deoj.0);
            out.push(esv.to_u8());
            build_block(&mut out, props.as_slice());
            assert(out@ =~= frame_bytes(frame@));
        },
        Edata::SetGet { seoj, deoj, esv, set_props, get_props } => {
            append(&mut out, &seoj.0);
            append(&mut out, &deoj.0);
            out.push(esv.to_u8());
            build_block(&mut out, set_props.as_slice());
            build_block(&mut out, get_props.as_slice());
            assert(out@ =~= frame_bytes(frame@));
        },
    }
    Ok(out)
}

/// Writes a list of properties behind what is there.
fn build_block(out: &mut Vec<u8>, props: &[Property])
    ensures
        final(out)@ == old(out)@ + block_bytes(props_view(props@)),
{
    let ghost before = out@;
    let ghost model = props_view(props@);
    out.push((props.len() % 256) as u8);
    let ghost count = seq![low_byte(model.len())];
    assert(props_bytes(model.take(0)) =~= Seq::empty());
    assert(out@ =~= before + count + props_bytes(model.take(0)));
    for i in 0..props.len()
        invariant
            model == props_view(props@),
            out@ == before + count + props_bytes(model.take(i as int)),
    {
        let p = &props[i];
        out.push(p.epc);
        out.push(p.pdc());
        append(out, p.edt.as_slice());
        proof {
            assert(model.take(i + 1).drop_last() =~= model.take(i as int));
            assert(model.take(i + 1).last() == p@);
            assert(out@ =~= before + count + props_bytes(model.take(i + 1)));
        }
    }
    assert(model.take(model.len() as int) =~= model);
    assert(out@ =~= before + block_bytes(model));
}

/// Writes bytes behind what is there.
fn append(out: &mut Vec<u8>, bytes: &[u8])
    ensures
        final(out)@ == old(out)@ + bytes@,
{
    out.extend_from_slice(bytes);
    assert(out@ =~= old(out)@ + bytes@);
}

/// Every count and every length of the list fits in its byte.
pub open spec fn props_fit(props: Seq<PropertyView>) -> bool {
    props.len() <= 255 && forall|i: int|
        0 <= i < props.len() ==> (#[trigger] props[i]).edt.len() <= 255
}

/// Why a list of properties cannot be written without loss: its own length is tested first.
pub open spec fn props_excess(props: Seq<PropertyView>) -> Option<CodecErrorView> {
    if props.len() > 255 {
        Some(CodecErrorView::TooLong("OPC (プロパティ数) は 255 以下"@))
    } else if !props_fit(props) {
        Some(CodecErrorView::TooLong("EDT は 255 バイト以下 (PDC 上限)"@))
    } else {
        None
    }
}

/// Why a frame cannot be written without loss.
pub open spec fn excess(f: FrameView) -> Option<CodecErrorView> {
    match f.edata {
        EdataView::Arbitrary(_) => None,
        EdataView::Standard { props, .. } => props_excess(props),
        EdataView::SetGet { set_props, get_props, .. } => match props_excess(set_props) {
            Some(e) => Some(e),
            None => props_excess(get_props),
        },
    }
}

/// Tests that every count and every length of a frame fits in its byte.
fn check_lengths(frame: &Frame) -> (r: Result<(), CodecError>)
    ensures
        match r {
            Ok(()) => excess(frame@) is None,
            Err(e) => excess(frame@) == Some(e@),
        },
{
    match &frame.edata {
        Edata::Arbitrary(_) => Ok(()),
        Edata::Standard { props, .. } => check_props(props.as_slice()),
        Edata::SetGet { set_props, get_props, .. } => {
            check_props(set_props.as_slice())?;
            check_props(get_props.as_slice())
        },
    }
}

/// Tests that the count and the lengths of a list of properties fit in their bytes.
fn check_props(props: &[Property]) -> (r: Result<(), CodecError>)
    ensures
        match r {
            Ok(()) => props_excess(props_view(props@)) is None,
            Err(e) => props_excess(props_view(props@)) == Some(e@),
        },
{
    let ghost model = props_view(props@);
    if props.len() > 255 {
        return Err(CodecError::TooLong("OPC (プロパティ数) は 255 以下"));
    }
    for i in 0..props.len()
        invariant
            model == props_view(props@),
            model.len() <= 255,
            forall|k: int| 0 <= k < i ==> (#[trigger] model[k]).edt.len() <= 255,
    {
        if props[i].edt.len() > 255 {
            assert(model[i as int].edt.len() > 255);
            return Err(CodecError::TooLong("EDT は 255 バイト以下 (PDC 上限)"));
        }
    }
    Ok(())
}

// ───────────────────────── reading position ─────────────────────────

/// A position in a buffer that is read from front to back.
struct Cursor<'a> {
    buf: &'a [u8],
    pos: usize,
}

impl<'a> Cursor<'a> {
    /// The position lies within the buffer.
    spec fn wf(&self) -> bool {
        self.pos <= self.buf@.len()
    }

    /// The bytes that are left.
    spec fn rest_view(&self) -> Seq<u8> {
        self.buf@.skip(self.pos as int)
    }

    /// The start of a buffer.
    fn new(buf: &'a [u8]) -> (c: Cursor<'a>)
        ensures
            c.wf(),
            c.rest_view() == buf@,
    {
        assert(buf@.skip(0) =~= buf@);
        Cursor { buf, pos: 0 }
    }

    /// The next `n` bytes.
    fn take(&mut self, n: usize, what: &'static str) -> (r: Result<&'a [u8], CodecError>)
        requires
            old(self).wf(),
        ensures
            final(self).wf(),
            match r {
                Ok(s) => {
                    &&& n <= old(self).rest_view().len()
                    &&& s@ == old(self).rest_view().take(n as int)
                    &&& final(self).rest_view() == old(self).rest_view().skip(n as int)
                },
                Err(e) => n > old(self).rest_view().len() && e@ == CodecErrorView::Truncated(what@),
            },
    {
        if n > self.buf.len() - self.pos {
            return Err(CodecError::Truncated(what));
        }
        let s = slice_subrange(self.buf, self.pos, self.pos + n);
        assert(s@ =~= self.rest_view().take(n as int));
        self.pos += n;
        assert(self.rest_view() =~= old(self).rest_view().skip(n as int));
        Ok(s)
    }

    /// The next byte.
    fn u8(&mut self, what: &'static str) -> (r: Result<u8, CodecError>)
        requires
            old(self).wf(),
        ensures
            final(self).wf(),
            match r {
                Ok(b) => {
                    &&& 1 <= old(self).rest_view().len()
                    &&& b == old(self).rest_view()[0]
                    &&& final(self).rest_view() == old(self).rest_view().skip(1)
                },
                Err(e) => 1 > old(self).rest_view().len() && e@ == CodecErrorView::Truncated(what@),
            },
    {
        Ok(self.take(1, what)?[0])
    }

    /// The next two bytes as a number, the high byte first.
    fn u16(&mut self, what: &'static str) -> (r: Result<u16, CodecError>)
        requires
            old(self).wf(),
        ensures
            final(self).wf(),
            match r {
                Ok(n) => {
                    &&& 2 <= old(self).rest_view().len()
                    &&& n == old(self).rest_view()[0] * 256 + old(self).rest_view()[1]
                    &&& final(self).rest_view() == old(self).rest_view().skip(2)
                },
                Err(e) => 2 > old(self).rest_view().len() && e@ == CodecErrorView::Truncated(what@),
            },
    {
        let s = self.take(2, what)?;
        Ok(s[0] as u16 * 256 + s[1] as u16)
    }

    /// The next three bytes as an object.
    fn eoj(&mut self, what: &'static str) -> (r: Result<Eoj, CodecError>)
        requires
            old(self).wf(),
        ensures
            final(self).wf(),
            match r {
                Ok(eoj) => {
                    &&& 3 <= old(self).rest_view().len()
                    &&& eoj@ == old(self).rest_view().take(3)
                    &&& final(self).rest_view() == old(self).rest_view().skip(3)
                },
                Err(e) => 3 > old(self).rest_view().len() && e@ == CodecErrorView::Truncated(what@),
            },
    {
        let s = self.take(3, what)?;
        let eoj = Eoj([s[0], s[1], s[2]]);
        assert(eoj@ =~= s@);
        Ok(eoj)
    }

    /// All the bytes that are left.
    fn rest(&self) -> (s: &'a [u8])
        requires
            self.wf(),
        ensures
            s@ == self.rest_view(),
    {
        slice_subrange(self.buf, self.pos, self.buf.len())
    }
}

// ───────────────────────── hexadecimal text ─────────────────────────

/// What is left of a text after its leading white space.
pub open spec fn trim_start(s: Seq<char>) -> Seq<char>
    decreases s.len(),
{
    if s.len() > 0 && text::is_white(s[0]) {
        trim_start(s.skip(1))
    } else {
        s
    }
}

/// What is left of a text after all leading repetitions of the two given characters.
pub open spec fn strip_pairs(s: Seq<char>, a: char, b: char) -> Seq<char>
    decreases s.len(),
{
    if s.len() >= 2 && s[0] == a && s[1] == b {
        strip_pairs(s.skip(2), a, b)
    } else {
        s
    }
}

/// The digits of a hexadecimal text: leading white space, `0x` and `0X` prefixes are skipped, and
/// the white space after them.
pub open spec fn hex_digits(s: Seq<char>) -> Seq<char> {
    strip_pairs(strip_pairs(trim_start(s), '0', 'x'), '0', 'X').filter(
        |c: char| !text::is_white(c),
    )
}

/// The bytes that pairs of digits stand for, where they are pairs of hexadecimal digits.
pub open spec fn bytes_of_digits(d: Seq<char>) -> Option<Seq<u8>> {
    if d.len() % 2 == 0 && forall|i: int|
        0 <= i < d.len() ==> text::hex_value(#[trigger] d[i]) is Some {
        Some(
            Seq::new(
                d.len() / 2,
                |i: int|
                    (text::hex_value(d[2 * i])->0 * 16 + text::hex_value(d[2 * i + 1])->0) as u8,
            ),
        )
    } else {
        None
    }
}

/// The bytes that a hexadecimal text stands for.
pub open spec fn bytes_of_hex(s: Seq<char>) -> Option<Seq<u8>> {
    bytes_of_digits(hex_digits(s))
}

/// Reads a hexadecimal text such as `01a3`. White space and a leading `0x` are allowed.
pub fn hex_to_bytes(s: &str) -> (r: Result<Vec<u8>, CodecError>)
    ensures
        match r {
            Ok(bytes) => bytes_of_hex(s@) == Some(bytes@),
            Err(e) => bytes_of_hex(s@) is None && e is BadHex,
        },
{
    let chars = text::chars_of(s);
    let start = skip_white(&chars);
    let start = skip_pairs(&chars, start, '0', 'x');
    let start = skip_pairs(&chars, start, '0', 'X');
    let digits = drop_white(&chars, start);
    digits_to_bytes(&digits)
}

/// The position of the first character that is no white space.
fn skip_white(chars: &Vec<char>) -> (start: usize)
    ensures
        start <= chars.len(),
        chars@.skip(start as int) == trim_start(chars@),
{
    let mut i: usize = 0;
    assert(chars@.skip(0) =~= chars@);
    while i < chars.len() && text::is_whitespace(chars[i])
        invariant
            i <= chars.len(),
            trim_start(chars@.skip(i as int)) == trim_start(chars@),
        decreases chars.len() - i,
    {
        assert(chars@.skip(i as int).skip(1) =~= chars@.skip(i + 1));
        i += 1;
    }
    i
}

/// The position after all repetitions of `a` `b` that stand at `start`.
fn skip_pairs(chars: &Vec<char>, start: usize, a: char, b: char) -> (end: usize)
    requires
        start <= chars.len(),
    ensures
        end <= chars.len(),
        chars@.skip(end as int) == strip_pairs(chars@.skip(start as int), a, b),
{
    let mut i: usize = start;
    while chars.len() - i >= 2 && chars[i] == a && chars[i + 1] == b
        invariant
            i <= chars.len(),
            strip_pairs(chars@.skip(i as int), a, b) == strip_pairs(
                chars@.skip(start as int),
                a,
                b,
            ),
        decreases chars.len() - i,
    {
        assert(chars@.skip(i as int).skip(2) =~= chars@.skip(i + 2));
        i += 2;
    }
    i
}

/// The characters from `start` on that are no white space.
fn drop_white(chars: &Vec<char>, start: usize) -> (kept: Vec<char>)
    requires
        start <= chars.len(),
    ensures
        kept@ == chars@.skip(start as int).filter(|c: char| !text::is_white(c)),
{
    let ghost rest = chars@.skip(start as int);
    let ghost keep = |c: char| !text::is_white(c);
    let mut kept: Vec<char> = Vec::new();
    let mut i: usize = start;
    assert(rest.take(0).filter(keep) =~= Seq::<char>::empty());
    while i < chars.len()
        invariant
            start <= i <= chars.len(),
            rest == chars@.skip(start as int),
            keep == (|c: char| !text::is_white(c)),
            kept@ == rest.take(i - start).filter(keep),
        decreases chars.len() - i,
    {
        let c = chars[i];
        assert(rest.take(i - start + 1).drop_last() =~= rest.take(i - start));
        assert(rest.take(i - start + 1).last() == c);
        reveal_with_fuel(Seq::filter, 2);
        if !text::is_whitespace(c) {
            kept.push(c);
        }
        i += 1;
    }
    assert(rest.take(rest.len() as int) =~= rest);
    kept
}

/// Reads pairs of hexadecimal digits.
fn digits_to_bytes(digits: &Vec<char>) -> (r: Result<Vec<u8>, CodecError>)
    ensures
        match r {
            Ok(bytes) => bytes_of_digits(digits@) == Some(bytes@),
            Err(e) => bytes_of_digits(digits@) is None && e is BadHex,
        },
{
    if digits.len() % 2 != 0 {
        return Err(CodecError::BadHex);
    }
    let mut out: Vec<u8> = Vec::with_capacity(digits.len() / 2);
    let mut i: usize = 0;
    while i < digits.len()
        invariant
            digits.len() % 2 == 0,
            i % 2 == 0,
            i <= digits.len(),
            out.len() == i / 2,
            forall|k: int| 0 <= k < i ==> text::hex_value(#[trigger] digits@[k]) is Some,
            forall|k: int|
                0 <= k < i / 2 ==> #[trigger] out@[k] == (text::hex_value(digits@[2 * k])->0 * 16
                    + text::hex_value(digits@[2 * k + 1])->0) as u8,
        decreases digits.len() - i,
    {
        let hi = hex_nibble(digits[i])?;
        let lo = hex_nibble(digits[i + 1])?;
        out.push(hi * 16 + lo);
        i += 2;
    }
    assert(out@ =~= bytes_of_digits(digits@)->0);
    Ok(out)
}

/// The value of one hexadecimal digit.
fn hex_nibble(c: char) -> (r: Result<u8, CodecError>)
    ensures
        match r {
            Ok(n) => text::hex_value(c) == Some(n) && n < 16,
            Err(e) => text::hex_value(c) is None && e is BadHex,
        },
{
    if '0' <= c && c <= '9' {
        Ok(c as u8 - '0' as u8)
    } else if 'a' <= c && c <= 'f' {
        Ok(c as u8 - 'a' as u8 + 10)
    } else if 'A' <= c && c <= 'F' {
        Ok(c as u8 - 'A' as u8 + 10)
    } else {
        Err(CodecError::BadHex)
    }
}

/// The bytes as lower-case hexadecimal digits, two for each.
pub fn bytes_to_hex(bytes: &[u8]) -> (s: String)
    ensures
        s@ == text::lower_hex(bytes@),
{
    let mut s = String::new();
    for i in 0..bytes.len()
        invariant
            s@ == text::lower_hex(bytes@.take(i as int)),
    {
        let b = bytes[i];
        s.push(text::to_lower_digit(b / 16));
        s.push(text::to_lower_digit(b % 16));
        assert(s@ =~= text::lower_hex(bytes@.take(i + 1)));
    }
    assert(bytes@.take(bytes@.len() as int) =~= bytes@);
    s
}

} // verus!
