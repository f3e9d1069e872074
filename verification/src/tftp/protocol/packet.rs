//! TFTP packets (RFC 1350, options per RFC 2347): decoding from and encoding to
//! the wire format.

use bytes::BytesMut;
use vstd::prelude::*;
use vstd::utf8::*;

use crate::tftp::protocol::bytes_buf::{
    bytes_mut_contents, bytes_put_slice, bytes_put_u16, bytes_put_u8, bytes_with_capacity,
};
use crate::tftp::text::{ascii_lower, str_eq, str_from_utf8, str_to_ascii_lowercase, string_push};
use vstd::slice::slice_to_vec;

verus! {

broadcast use vstd::string::group_string_axioms;

/// TFTP opcodes per RFC 1350 + RFC 2347
#[derive(Debug, Clone, Copy, PartialEq, Eq, Structural)]
pub enum Opcode {
    Rrq,
    Wrq,
    Data,
    Ack,
    Error,
    Oack,
}

impl Opcode {
    pub open spec fn spec_from_u16(val: u16) -> Option<Opcode> {
        if val == 1 {
            Some(Opcode::Rrq)
        } else if val == 2 {
            Some(Opcode::Wrq)
        } else if val == 3 {
            Some(Opcode::Data)
        } else if val == 4 {
            Some(Opcode::Ack)
        } else if val == 5 {
            Some(Opcode::Error)
        } else if val == 6 {
            Some(Opcode::Oack)
        } else {
            None
        }
    }

    /// The wire number of the opcode.
    pub open spec fn spec_code(self) -> u16 {
        match self {
            Opcode::Rrq => 1,
            Opcode::Wrq => 2,
            Opcode::Data => 3,
            Opcode::Ack => 4,
            Opcode::Error => 5,
            Opcode::Oack => 6,
        }
    }

    pub fn from_u16(val: u16) -> (r: Option<Self>)
        ensures
            r == Self::spec_from_u16(val),
    {
        match val {
            1 => Some(Opcode::Rrq),
            2 => Some(Opcode::Wrq),
            3 => Some(Opcode::Data),
            4 => Some(Opcode::Ack),
            5 => Some(Opcode::Error),
            6 => Some(Opcode::Oack),
            _ => None,
        }
    }

    pub fn code(&self) -> (r: u16)
        ensures
            r == self.spec_code(),
    {
        match self {
            Opcode::Rrq => 1,
            Opcode::Wrq => 2,
            Opcode::Data => 3,
            Opcode::Ack => 4,
            Opcode::Error => 5,
            Opcode::Oack => 6,
        }
    }
}

/// TFTP error codes per RFC 1350
#[derive(Debug, Clone, Copy, PartialEq, Eq, Structural)]
pub enum ErrorCode {
    NotDefined,
    FileNotFound,
    AccessViolation,
    DiskFull,
    IllegalOperation,
    UnknownTransferId,
    FileAlreadyExists,
    NoSuchUser,
    OptionRejected,
}

impl ErrorCode {
    /// Unknown numbers fall back to `NotDefined`.
    pub open spec fn spec_from_u16(val: u16) -> ErrorCode {
        if val == 1 {
            ErrorCode::FileNotFound
        } else if val == 2 {
            ErrorCode::AccessViolation
        } else if val == 3 {
            ErrorCode::DiskFull
        } else if val == 4 {
            ErrorCode::IllegalOperation
        } else if val == 5 {
            ErrorCode::UnknownTransferId
        } else if val == 6 {
            ErrorCode::FileAlreadyExists
        } else if val == 7 {
            ErrorCode::NoSuchUser
        } else if val == 8 {
            ErrorCode::OptionRejected
        } else {
            ErrorCode::NotDefined
        }
    }

    pub open spec fn spec_code(self) -> u16 {
        match self {
            ErrorCode::NotDefined => 0,
            ErrorCode::FileNotFound => 1,
            ErrorCode::AccessViolation => 2,
            ErrorCode::DiskFull => 3,
            ErrorCode::IllegalOperation => 4,
            ErrorCode::UnknownTransferId => 5,
            ErrorCode::FileAlreadyExists => 6,
            ErrorCode::NoSuchUser => 7,
            ErrorCode::OptionRejected => 8,
        }
    }

    pub open spec fn spec_text(self) -> Seq<char> {
        match self {
            ErrorCode::NotDefined => "Not defined"@,
            ErrorCode::FileNotFound => "File not found"@,
            ErrorCode::AccessViolation => "Access violation"@,
            ErrorCode::DiskFull => "Disk full"@,
            ErrorCode::IllegalOperation => "Illegal TFTP operation"@,
            ErrorCode::UnknownTransferId => "Unknown transfer ID"@,
            ErrorCode::FileAlreadyExists => "File already exists"@,
            ErrorCode::NoSuchUser => "No such user"@,
            ErrorCode::OptionRejected => "Option rejected"@,
        }
    }

    pub fn from_u16(val: u16) -> (r: Self)
        ensures
            r == Self::spec_from_u16(val),
    {
        match val {
            0 => ErrorCode::NotDefined,
            1 => ErrorCode::FileNotFound,
            2 => ErrorCode::AccessViolation,
            3 => ErrorCode::DiskFull,
            4 => ErrorCode::IllegalOperation,
            5 => ErrorCode::UnknownTransferId,
            6 => ErrorCode::FileAlreadyExists,
            7 => ErrorCode::NoSuchUser,
            8 => ErrorCode::OptionRejected,
            _ => ErrorCode::NotDefined,
        }
    }

    pub fn code(&self) -> (r: u16)
        ensures
            r == self.spec_code(),
    {
        match self {
            ErrorCode::NotDefined => 0,
            ErrorCode::FileNotFound => 1,
            ErrorCode::AccessViolation => 2,
            ErrorCode::DiskFull => 3,
            ErrorCode::IllegalOperation => 4,
            ErrorCode::UnknownTransferId => 5,
            ErrorCode::FileAlreadyExists => 6,
            ErrorCode::NoSuchUser => 7,
            ErrorCode::OptionRejected => 8,
        }
    }

    /// The human-readable description of the code.
    pub fn to_string(&self) -> (r: String)
        ensures
            r@ == self.spec_text(),
    {
        match self {
            ErrorCode::NotDefined => "Not defined".to_string(),
            ErrorCode::FileNotFound => "File not found".to_string(),
            ErrorCode::AccessViolation => "Access violation".to_string(),
            ErrorCode::DiskFull => "Disk full".to_string(),
            ErrorCode::IllegalOperation => "Illegal TFTP operation".to_string(),
            ErrorCode::UnknownTransferId => "Unknown transfer ID".to_string(),
            ErrorCode::FileAlreadyExists => "File already exists".to_string(),
            ErrorCode::NoSuchUser => "No such user".to_string(),
            ErrorCode::OptionRejected => "Option rejected".to_string(),
        }
    }
}

/// Transfer mode
#[derive(Debug, Clone, Copy, PartialEq, Eq, Structural)]
pub enum TransferMode {
    Octet,
    Netascii,
}

impl TransferMode {
    /// The mode named by `s`, compared after ASCII lower-casing.
    pub open spec fn spec_from_chars(s: Seq<char>) -> Option<TransferMode> {
        if ascii_lower(s) == "octet"@ {
            Some(TransferMode::Octet)
        } else if ascii_lower(s) == "netascii"@ {
            Some(TransferMode::Netascii)
        } else {
            None
        }
    }

    pub open spec fn spec_name(self) -> Seq<char> {
        match self {
            TransferMode::Octet => "octet"@,
            TransferMode::Netascii => "netascii"@,
        }
    }

    pub fn from_str_ignore_case(s: &str) -> (r: Option<Self>)
        ensures
            r == Self::spec_from_chars(s@),
    {
        let lower = str_to_ascii_lowercase(s);
        if str_eq(lower.as_str(), "octet") {
            Some(TransferMode::Octet)
        } else if str_eq(lower.as_str(), "netascii") {
            Some(TransferMode::Netascii)
        } else {
            None
        }
    }

    pub fn as_str(&self) -> (r: &'static str)
        ensures
            r@ == self.spec_name(),
    {
        match self {
            TransferMode::Octet => "octet",
            TransferMode::Netascii => "netascii",
        }
    }
}

/// A negotiation option from RRQ/WRQ
#[derive(Debug, Clone, PartialEq, Eq)]
pub struct TftpOption {
    pub name: String,
    pub value: String,
}

/// Parsed TFTP packet
#[derive(Debug, Clone, PartialEq, Eq)]
pub enum Packet {
    Rrq { filename: String, mode: TransferMode, options: Vec<TftpOption> },
    Wrq { filename: String, mode: TransferMode, options: Vec<TftpOption> },
    Data { block: u16, data: Vec<u8> },
    Ack { block: u16 },
    Error { code: ErrorCode, message: String },
    Oack { options: Vec<TftpOption> },
}

/// Parse error
#[derive(Debug)]
pub enum ParseError {
    TooShort(usize),
    UnknownOpcode(u16),
    Malformed(String),
    InvalidFilename,
    UnknownMode(String),
}

/// An option as text.
pub struct OptionView {
    pub name: Seq<char>,
    pub value: Seq<char>,
}

/// A packet as mathematical values.
pub enum PacketView {
    Rrq { filename: Seq<char>, mode: TransferMode, options: Seq<OptionView> },
    Wrq { filename: Seq<char>, mode: TransferMode, options: Seq<OptionView> },
    Data { block: u16, data: Seq<u8> },
    Ack { block: u16 },
    Error { code: ErrorCode, message: Seq<char> },
    Oack { options: Seq<OptionView> },
}

/// A parse error as mathematical values.
pub enum ParseErrorView {
    TooShort(usize),
    UnknownOpcode(u16),
    Malformed(Seq<char>),
    InvalidFilename,
    UnknownMode(Seq<char>),
}

impl View for TftpOption {
    type V = OptionView;

    open spec fn view(&self) -> OptionView {
        OptionView { name: self.name@, value: self.value@ }
    }
}

pub open spec fn options_view(v: Seq<TftpOption>) -> Seq<OptionView> {
    v.map_values(|o: TftpOption| o@)
}

impl View for Packet {
    type V = PacketView;

    open spec fn view(&self) -> PacketView {
        match self {
            Packet::Rrq { filename, mode, options } => PacketView::Rrq {
                filename: filename@,
                mode: *mode,
                options: options_view(options@),
            },
            Packet::Wrq { filename, mode, options } => PacketView::Wrq {
                filename: filename@,
                mode: *mode,
                options: options_view(options@),
            },
            Packet::Data { block, data } => PacketView::Data { block: *block, data: data@ },
            Packet::Ack { block } => PacketView::Ack { block: *block },
            Packet::Error { code, message } => PacketView::Error {
                code: *code,
                message: message@,
            },
            Packet::Oack { options } => PacketView::Oack { options: options_view(options@) },
        }
    }
}

impl View for ParseError {
    type V = ParseErrorView;

    open spec fn view(&self) -> ParseErrorView {
        match self {
            ParseError::TooShort(n) => ParseErrorView::TooShort(*n),
            ParseError::UnknownOpcode(n) => ParseErrorView::UnknownOpcode(*n),
            ParseError::Malformed(m) => ParseErrorView::Malformed(m@),
            ParseError::InvalidFilename => ParseErrorView::InvalidFilename,
            ParseError::UnknownMode(m) => ParseErrorView::UnknownMode(m@),
        }
    }
}

pub open spec fn result_view(r: Result<Packet, ParseError>) -> Result<PacketView, ParseErrorView> {
    match r {
        Ok(p) => Ok(p@),
        Err(e) => Err(e@),
    }
}

// ─── Wire format, as mathematics ───────────────────────────────────────────

/// The big-endian 16-bit number held by two bytes.
pub open spec fn be_u16(hi: u8, lo: u8) -> u16 {
    (hi as int * 256 + lo as int) as u16
}

/// The two bytes of `n`, big-endian.
pub open spec fn be_bytes(n: u16) -> Seq<u8> {
    seq![(n / 256) as u8, (n % 256) as u8]
}

/// All pieces of `s` between NUL bytes, the unterminated tail included.
pub open spec fn split_all(s: Seq<u8>) -> Seq<Seq<u8>>
    decreases s.len(),
{
    if s.len() == 0 {
        seq![Seq::<u8>::empty()]
    } else if s.last() == 0 {
        split_all(s.drop_last()).push(Seq::<u8>::empty())
    } else {
        let t = split_all(s.drop_last());
        t.update(t.len() - 1, t.last().push(s.last()))
    }
}

/// The NUL-terminated strings of `s`; bytes after the last NUL are dropped.
pub open spec fn split_nul(s: Seq<u8>) -> Seq<Seq<u8>> {
    split_all(s).drop_last()
}

pub open spec fn has_zero(s: Seq<u8>) -> bool {
    exists|i: int| 0 <= i < s.len() && s[i] == 0
}

/// Index of the first NUL at or after `i`, or the length when there is none.
pub open spec fn first_zero_from(s: Seq<u8>, i: int) -> int
    decreases s.len() - i,
{
    if i >= s.len() || i < 0 {
        s.len() as int
    } else if s[i] == 0 {
        i
    } else {
        first_zero_from(s, i + 1)
    }
}

/// The first byte of `s` from index `i` on that is a control byte (below 0x20).
pub open spec fn first_control_from(s: Seq<u8>, i: int) -> Option<u8>
    decreases s.len() - i,
{
    if i >= s.len() || i < 0 {
        None
    } else if s[i] < 0x20 {
        Some(s[i])
    } else {
        first_control_from(s, i + 1)
    }
}

pub open spec fn dot_pair_at(s: Seq<u8>, i: int) -> bool {
    0 <= i && i + 1 < s.len() && s[i] == 0x2e && s[i + 1] == 0x2e
}

pub open spec fn has_dot_dot(s: Seq<u8>) -> bool {
    exists|i: int| #[trigger] dot_pair_at(s, i)
}

pub open spec fn has_byte(s: Seq<u8>, b: u8) -> bool {
    exists|i: int| 0 <= i < s.len() && s[i] == b
}

pub open spec fn hex_digit(d: nat) -> char {
    if d < 10 {
        ((d + '0' as nat) as u32) as char
    } else {
        ((d - 10 + 'a' as nat) as u32) as char
    }
}

/// `{:02x}` of a byte.
pub open spec fn hex2(b: u8) -> Seq<char> {
    seq![hex_digit(b as nat / 16), hex_digit(b as nat % 16)]
}

/// "control character 0x.. in <place>"
pub open spec fn control_char_text(b: u8, place: Seq<char>) -> Seq<char> {
    "control character 0x"@ + hex2(b) + " in "@ + place
}

/// The lower-case hexadecimal digit of `d`.
fn hex_digit_char(d: u8) -> (c: char)
    requires
        d < 16,
    ensures
        c == hex_digit(d as nat),
{
    if d < 10 {
        (0x30u8 + d) as char
    } else {
        (0x57u8 + d) as char
    }
}

/// The message about a control byte `b` found in a `place` (a file name or a
/// path): `control character 0x..` with the byte in two lower-case hex digits.
pub(crate) fn control_char_message(b: u8, place: &str) -> (r: String)
    ensures
        r@ == control_char_text(b, place@),
{
    let mut s = String::new();
    s.append("control character 0x");
    string_push(&mut s, hex_digit_char(b / 16));
    string_push(&mut s, hex_digit_char(b % 16));
    s.append(" in ");
    s.append(place);
    proof {
        reveal_strlit("control character 0x");
        reveal_strlit(" in ");
    }
    assert(s@ =~= control_char_text(b, place@));
    s
}

/// The error codes carry the numbers RFC 1350 gives them, reading a number
/// back names the same code, and numbers past the table read as `NotDefined`.
pub proof fn lemma_error_code_numbers()
    ensures
        ErrorCode::NotDefined.spec_code() == 0,
        ErrorCode::FileNotFound.spec_code() == 1,
        ErrorCode::AccessViolation.spec_code() == 2,
        ErrorCode::DiskFull.spec_code() == 3,
        ErrorCode::IllegalOperation.spec_code() == 4,
        ErrorCode::UnknownTransferId.spec_code() == 5,
        ErrorCode::FileAlreadyExists.spec_code() == 6,
        ErrorCode::NoSuchUser.spec_code() == 7,
        ErrorCode::OptionRejected.spec_code() == 8,
        forall|n: u16| n <= 8 ==> (#[trigger] ErrorCode::spec_from_u16(n)).spec_code() == n,
        forall|n: u16| n > 8 ==> #[trigger] ErrorCode::spec_from_u16(n) == ErrorCode::NotDefined,
        forall|c: ErrorCode| ErrorCode::spec_from_u16(#[trigger] c.spec_code()) == c,
{
}

/// No control byte from `i` on exactly when every byte from `i` on is at
/// least 0x20.
pub proof fn lemma_first_control_none(s: Seq<u8>, i: int)
    requires
        0 <= i,
    ensures
        first_control_from(s, i) is None <==> (forall|k: int| i <= k < s.len() ==> s[k] >= 0x20),
    decreases s.len() - i,
{
    if i < s.len() && s[i] >= 0x20 {
        lemma_first_control_none(s, i + 1);
        assert((forall|k: int| i + 1 <= k < s.len() ==> s[k] >= 0x20) ==> (forall|k: int|
            i <= k < s.len() ==> s[k] >= 0x20));
    }
}

/// A requested file name is refused exactly when it is empty, holds "..",
/// holds a `~`, or holds a byte below 0x20; every other name is accepted.
pub proof fn lemma_filename_refusals(name: Seq<u8>)
    ensures
        filename_problem(name) is None <==> (name.len() > 0 && (forall|i: int|
            0 <= i < name.len() ==> name[i] != 0x7e && name[i] >= 0x20) && (forall|i: int|
            0 <= i && i + 1 < name.len() ==> !(#[trigger] name[i] == 0x2e && name[i + 1] == 0x2e))),
{
    lemma_first_control_none(name, 0);
    let bytes_ok = forall|i: int| 0 <= i < name.len() ==> name[i] != 0x7e && name[i] >= 0x20;
    let no_pair = forall|i: int|
        0 <= i && i + 1 < name.len() ==> !(#[trigger] name[i] == 0x2e && name[i + 1] == 0x2e);
    assert(no_pair <==> !has_dot_dot(name)) by {
        if has_dot_dot(name) {
            let k = choose|k: int| #[trigger] dot_pair_at(name, k);
            assert(name[k] == 0x2e && name[k + 1] == 0x2e);
        }
        if !no_pair {
            let k = choose|k: int|
                !(0 <= k && k + 1 < name.len() ==> !(#[trigger] name[k] == 0x2e && name[k + 1]
                    == 0x2e));
            assert(dot_pair_at(name, k));
        }
    }
    assert(bytes_ok <==> (!has_byte(name, 0x7e) && first_control_from(name, 0) is None)) by {
        if has_byte(name, 0x7e) {
            let k = choose|k: int| 0 <= k < name.len() && name[k] == 0x7e;
            assert(name[k] == 0x7e);
        }
        if bytes_ok {
            assert forall|k: int| 0 <= k < name.len() implies name[k] >= 0x20 by {}
        }
        if !bytes_ok {
            let k = choose|k: int| !(0 <= k < name.len() ==> name[k] != 0x7e && name[k] >= 0x20);
            if name[k] == 0x7e {
                assert(has_byte(name, 0x7e));
            } else {
                assert(!(forall|j: int| 0 <= j < name.len() ==> name[j] >= 0x20));
            }
        }
    }
}

/// Why a requested file name (given by its UTF-8 bytes) is refused, if it is.
pub open spec fn filename_problem(name: Seq<u8>) -> Option<Seq<char>> {
    if name.len() == 0 {
        Some("empty filename"@)
    } else if has_dot_dot(name) {
        Some("path traversal attempt (..)"@)
    } else if has_byte(name, 0x7e) {
        Some("tilde in filename"@)
    } else if first_control_from(name, 0) is Some {
        Some(control_char_text(first_control_from(name, 0)->0, "filename"@))
    } else {
        None
    }
}

/// Options from the NUL-terminated strings `strings[i..]`, taken in pairs;
/// a trailing unpaired string is ignored.
pub open spec fn spec_options(
    strings: Seq<Seq<u8>>,
    i: int,
    name_err: Seq<char>,
    value_err: Seq<char>,
) -> Result<Seq<OptionView>, Seq<char>>
    decreases strings.len() - i,
{
    if 0 <= i && i + 1 < strings.len() {
        if !valid_utf8(strings[i]) {
            Err(name_err)
        } else if !valid_utf8(strings[i + 1]) {
            Err(value_err)
        } else {
            match spec_options(strings, i + 2, name_err, value_err) {
                Ok(rest) => Ok(
                    seq![
                        OptionView {
                            name: ascii_lower(decode_utf8(strings[i])),
                            value: decode_utf8(strings[i + 1]),
                        },
                    ] + rest,
                ),
                Err(e) => Err(e),
            }
        }
    } else {
        Ok(Seq::empty())
    }
}

/// RRQ/WRQ: filename, mode, then option pairs.
pub open spec fn spec_parse_request(data: Seq<u8>, is_rrq: bool) -> Result<
    PacketView,
    ParseErrorView,
> {
    let strings = split_nul(data.skip(2));
    if strings.len() < 2 {
        Err(ParseErrorView::Malformed("missing filename or mode"@))
    } else if !valid_utf8(strings[0]) {
        Err(ParseErrorView::InvalidFilename)
    } else if filename_problem(strings[0]) is Some {
        Err(ParseErrorView::Malformed(filename_problem(strings[0])->0))
    } else if !valid_utf8(strings[1]) {
        Err(ParseErrorView::Malformed("invalid mode encoding"@))
    } else if TransferMode::spec_from_chars(decode_utf8(strings[1])) is None {
        Err(ParseErrorView::UnknownMode(decode_utf8(strings[1])))
    } else {
        match spec_options(
            strings,
            2,
            "invalid option name encoding"@,
            "invalid option value encoding"@,
        ) {
            Err(e) => Err(ParseErrorView::Malformed(e)),
            Ok(options) => {
                let filename = decode_utf8(strings[0]);
                let mode = TransferMode::spec_from_chars(decode_utf8(strings[1]))->0;
                if is_rrq {
                    Ok(PacketView::Rrq { filename, mode, options })
                } else {
                    Ok(PacketView::Wrq { filename, mode, options })
                }
            },
        }
    }
}

/// The text of an ERROR packet: the bytes after the code up to the first NUL.
pub open spec fn spec_error_message(data: Seq<u8>) -> Seq<char> {
    if data.len() > 4 {
        let msg = data.skip(4);
        let text = msg.take(first_zero_from(msg, 0));
        if valid_utf8(text) {
            decode_utf8(text)
        } else {
            "invalid error message"@
        }
    } else {
        Seq::empty()
    }
}

/// Decoding of a whole packet.
pub open spec fn spec_parse_packet(data: Seq<u8>) -> Result<PacketView, ParseErrorView> {
    if data.len() < 2 {
        Err(ParseErrorView::TooShort(data.len() as usize))
    } else {
        let op = be_u16(data[0], data[1]);
        match Opcode::spec_from_u16(op) {
            None => Err(ParseErrorView::UnknownOpcode(op)),
            Some(Opcode::Rrq) => spec_parse_request(data, true),
            Some(Opcode::Wrq) => spec_parse_request(data, false),
            Some(Opcode::Data) => if data.len() < 4 {
                Err(ParseErrorView::TooShort(data.len() as usize))
            } else {
                Ok(PacketView::Data { block: be_u16(data[2], data[3]), data: data.skip(4) })
            },
            Some(Opcode::Ack) => if data.len() < 4 {
                Err(ParseErrorView::TooShort(data.len() as usize))
            } else {
                Ok(PacketView::Ack { block: be_u16(data[2], data[3]) })
            },
            Some(Opcode::Error) => if data.len() < 4 {
                Err(ParseErrorView::TooShort(data.len() as usize))
            } else {
                Ok(
                    PacketView::Error {
                        code: ErrorCode::spec_from_u16(be_u16(data[2], data[3])),
                        message: spec_error_message(data),
                    },
                )
            },
            Some(Opcode::Oack) => match spec_options(
                split_nul(data.skip(2)),
                0,
                "invalid option name in OACK"@,
                "invalid option value in OACK"@,
            ) {
                Err(e) => Err(ParseErrorView::Malformed(e)),
                Ok(options) => Ok(PacketView::Oack { options }),
            },
        }
    }
}

/// The encoding of one option: name, NUL, value, NUL.
pub open spec fn option_bytes(o: OptionView) -> Seq<u8> {
    encode_utf8(o.name) + seq![0u8] + encode_utf8(o.value) + seq![0u8]
}

pub open spec fn options_bytes(opts: Seq<OptionView>) -> Seq<u8>
    decreases opts.len(),
{
    if opts.len() == 0 {
        Seq::empty()
    } else {
        options_bytes(opts.drop_last()) + option_bytes(opts.last())
    }
}

pub open spec fn request_bytes(
    op: u16,
    filename: Seq<char>,
    mode: TransferMode,
    options: Seq<OptionView>,
) -> Seq<u8> {
    be_bytes(op) + encode_utf8(filename) + seq![0u8] + encode_utf8(mode.spec_name()) + seq![0u8]
        + options_bytes(options)
}

/// Encoding of a whole packet.
pub open spec fn spec_serialize(p: PacketView) -> Seq<u8> {
    match p {
        PacketView::Rrq { filename, mode, options } => request_bytes(1, filename, mode, options),
        PacketView::Wrq { filename, mode, options } => request_bytes(2, filename, mode, options),
        PacketView::Data { block, data } => be_bytes(3) + be_bytes(block) + data,
        PacketView::Ack { block } => be_bytes(4) + be_bytes(block),
        PacketView::Error { code, message } => be_bytes(5) + be_bytes(code.spec_code())
            + encode_utf8(message) + seq![0u8],
        PacketView::Oack { options } => be_bytes(6) + options_bytes(options),
    }
}


pub open spec fn pieces_view(v: Seq<&[u8]>) -> Seq<Seq<u8>> {
    v.map_values(|x: &[u8]| x@)
}

/// `prefix` put before the options of `res`, errors passed through.
pub open spec fn prepend_options(
    prefix: Seq<OptionView>,
    res: Result<Seq<OptionView>, Seq<char>>,
) -> Result<Seq<OptionView>, Seq<char>> {
    match res {
        Ok(rest) => Ok(prefix + rest),
        Err(e) => Err(e),
    }
}

// ─── Decoding ──────────────────────────────────────────────────────────────

/// Parse a TFTP packet from raw bytes.
pub fn parse_packet(data: &[u8]) -> (r: Result<Packet, ParseError>)
    ensures
        result_view(r) == spec_parse_packet(data@),
{
    if data.len() < 2 {
        return Err(ParseError::TooShort(data.len()));
    }
    let opcode = (data[0] as u16) * 256 + data[1] as u16;
    let op = match Opcode::from_u16(opcode) {
        Some(op) => op,
        None => return Err(ParseError::UnknownOpcode(opcode)),
    };
    match op {
        Opcode::Rrq => parse_request(data, true),
        Opcode::Wrq => parse_request(data, false),
        Opcode::Data => parse_data(data),
        Opcode::Ack => parse_ack(data),
        Opcode::Error => parse_error(data),
        Opcode::Oack => parse_oack(data),
    }
}

fn parse_null_terminated_strings(data: &[u8]) -> (r: Vec<&[u8]>)
    ensures
        pieces_view(r@) == split_nul(data@),
{
    let mut strings: Vec<&[u8]> = Vec::new();
    let mut start: usize = 0;
    let mut i: usize = 0;
    while i < data.len()
        invariant
            start <= i <= data@.len(),
            split_all(data@.take(i as int)).len() == strings@.len() + 1,
            forall|k: int|
                0 <= k < strings@.len() ==> #[trigger] strings@[k]@ == split_all(
                    data@.take(i as int),
                )[k],
            split_all(data@.take(i as int)).last() == data@.subrange(start as int, i as int),
        decreases data.len() - i,
    {
        assert(data@.take(i + 1).drop_last() =~= data@.take(i as int));
        assert(data@.subrange(start as int, i + 1) =~= data@.subrange(start as int, i as int).push(
            data@[i as int],
        ));
        if data[i] == 0 {
            strings.push(&data[start..i]);
            start = i + 1;
        }
        i = i + 1;
    }
    assert(data@.take(data@.len() as int) =~= data@);
    assert(pieces_view(strings@) =~= split_nul(data@));
    strings
}

/// Options from `strings[start..]`, taken in pairs.
fn parse_options(strings: &Vec<&[u8]>, start: usize, name_err: &str, value_err: &str) -> (r:
    Result<Vec<TftpOption>, String>)
    ensures
        match r {
            Ok(v) => spec_options(pieces_view(strings@), start as int, name_err@, value_err@) == Ok::<
                Seq<OptionView>,
                Seq<char>,
            >(options_view(v@)),
            Err(m) => spec_options(pieces_view(strings@), start as int, name_err@, value_err@)
                == Err::<Seq<OptionView>, Seq<char>>(m@),
        },
{
    let ghost pv = pieces_view(strings@);
    let mut options: Vec<TftpOption> = Vec::new();
    let mut i = start;
    while i < strings.len() && i + 1 < strings.len()
        invariant
            start <= i,
            pv == pieces_view(strings@),
            spec_options(pv, start as int, name_err@, value_err@) == prepend_options(
                options_view(options@),
                spec_options(pv, i as int, name_err@, value_err@),
            ),
        decreases strings.len() - i,
    {
        let name = match str_from_utf8(strings[i]) {
            Some(n) => n,
            None => return Err(name_err.to_string()),
        };
        let value = match str_from_utf8(strings[i + 1]) {
            Some(v) => v,
            None => return Err(value_err.to_string()),
        };
        let opt = TftpOption { name: str_to_ascii_lowercase(name), value: value.to_string() };
        let ghost before = options_view(options@);
        options.push(opt);
        assert(options_view(options@) =~= before + seq![opt@]);
        proof {
            assert(pv[i as int] == strings@[i as int]@);
            assert(pv[i + 1] == strings@[i + 1]@);
            match spec_options(pv, i + 2, name_err@, value_err@) {
                Ok(rest) => {
                    assert(before + (seq![opt@] + rest) =~= (before + seq![opt@]) + rest);
                },
                Err(e) => {},
            }
        }
        i = i + 2;
    }
    Ok(options)
}

/// Why a requested file name is refused, if it is: empty, `..`, `~`, or a
/// control character.
pub fn validate_filename(filename: &str) -> (r: Result<(), ParseError>)
    ensures
        match r {
            Ok(()) => filename_problem(encode_utf8(filename@)) is None,
            Err(e) => filename_problem(encode_utf8(filename@)) matches Some(m) && e@
                == ParseErrorView::Malformed(m),
        },
{
    let b = filename.as_bytes();
    if b.len() == 0 {
        return Err(ParseError::Malformed("empty filename".to_string()));
    }
    let mut i: usize = 0;
    while i + 1 < b.len()
        invariant
            i < b@.len(),
            b@ == encode_utf8(filename@),
            forall|k: int| 0 <= k < i ==> !#[trigger] dot_pair_at(b@, k),
        decreases b.len() - i,
    {
        if b[i] == 0x2e && b[i + 1] == 0x2e {
            assert(dot_pair_at(b@, i as int));
            return Err(ParseError::Malformed("path traversal attempt (..)".to_string()));
        }
        i = i + 1;
    }
    let mut j: usize = 0;
    while j < b.len()
        invariant
            b@ == encode_utf8(filename@),
            !has_dot_dot(b@),
            forall|k: int| 0 <= k < j ==> b@[k] != 0x7e,
        decreases b.len() - j,
    {
        if b[j] == 0x7e {
            return Err(ParseError::Malformed("tilde in filename".to_string()));
        }
        j = j + 1;
    }
    let mut k: usize = 0;
    while k < b.len()
        invariant
            b@ == encode_utf8(filename@),
            !has_dot_dot(b@),
            !has_byte(b@, 0x7e),
            first_control_from(b@, 0) == first_control_from(b@, k as int),
        decreases b.len() - k,
    {
        if b[k] < 0x20 {
            return Err(ParseError::Malformed(control_char_message(b[k], "filename")));
        }
        k = k + 1;
    }
    Ok(())
}

fn parse_request(data: &[u8], is_rrq: bool) -> (r: Result<Packet, ParseError>)
    requires
        data@.len() >= 2,
    ensures
        result_view(r) == spec_parse_request(data@, is_rrq),
{
    broadcast use vstd::utf8::decode_utf8_encode_utf8;

    let payload = &data[2..data.len()];
    assert(payload@ =~= data@.skip(2));
    let strings = parse_null_terminated_strings(payload);
    let ghost pv = pieces_view(strings@);
    if strings.len() < 2 {
        return Err(ParseError::Malformed("missing filename or mode".to_string()));
    }
    assert(pv[0] == strings@[0]@);
    assert(pv[1] == strings@[1]@);
    let filename = match str_from_utf8(strings[0]) {
        Some(f) => f,
        None => return Err(ParseError::InvalidFilename),
    };
    assert(encode_utf8(filename@) == pv[0]);
    match validate_filename(filename) {
        Ok(()) => {},
        Err(e) => return Err(e),
    }
    let mode_str = match str_from_utf8(strings[1]) {
        Some(m) => m,
        None => return Err(ParseError::Malformed("invalid mode encoding".to_string())),
    };
    let mode = match TransferMode::from_str_ignore_case(mode_str) {
        Some(m) => m,
        None => return Err(ParseError::UnknownMode(mode_str.to_string())),
    };
    let options = match parse_options(
        &strings,
        2,
        "invalid option name encoding",
        "invalid option value encoding",
    ) {
        Ok(o) => o,
        Err(m) => return Err(ParseError::Malformed(m)),
    };
    let filename = filename.to_string();
    if is_rrq {
        Ok(Packet::Rrq { filename, mode, options })
    } else {
        Ok(Packet::Wrq { filename, mode, options })
    }
}

fn parse_data(data: &[u8]) -> (r: Result<Packet, ParseError>)
    requires
        data@.len() >= 2,
    ensures
        data@.len() < 4 ==> result_view(r) == Err::<PacketView, ParseErrorView>(
            ParseErrorView::TooShort(data@.len() as usize),
        ),
        data@.len() >= 4 ==> result_view(r) == Ok::<PacketView, ParseErrorView>(
            PacketView::Data { block: be_u16(data@[2], data@[3]), data: data@.skip(4) },
        ),
{
    if data.len() < 4 {
        return Err(ParseError::TooShort(data.len()));
    }
    let block = (data[2] as u16) * 256 + data[3] as u16;
    let payload = slice_to_vec(&data[4..data.len()]);
    assert(payload@ =~= data@.skip(4));
    Ok(Packet::Data { block, data: payload })
}

fn parse_ack(data: &[u8]) -> (r: Result<Packet, ParseError>)
    requires
        data@.len() >= 2,
    ensures
        data@.len() < 4 ==> result_view(r) == Err::<PacketView, ParseErrorView>(
            ParseErrorView::TooShort(data@.len() as usize),
        ),
        data@.len() >= 4 ==> result_view(r) == Ok::<PacketView, ParseErrorView>(
            PacketView::Ack { block: be_u16(data@[2], data@[3]) },
        ),
{
    if data.len() < 4 {
        return Err(ParseError::TooShort(data.len()));
    }
    let block = (data[2] as u16) * 256 + data[3] as u16;
    Ok(Packet::Ack { block })
}

fn parse_error(data: &[u8]) -> (r: Result<Packet, ParseError>)
    requires
        data@.len() >= 2,
    ensures
        data@.len() < 4 ==> result_view(r) == Err::<PacketView, ParseErrorView>(
            ParseErrorView::TooShort(data@.len() as usize),
        ),
        data@.len() >= 4 ==> result_view(r) == Ok::<PacketView, ParseErrorView>(
            PacketView::Error {
                code: ErrorCode::spec_from_u16(be_u16(data@[2], data@[3])),
                message: spec_error_message(data@),
            },
        ),
{
    if data.len() < 4 {
        return Err(ParseError::TooShort(data.len()));
    }
    let code = (data[2] as u16) * 256 + data[3] as u16;
    let message = if data.len() > 4 {
        let msg_bytes = &data[4..data.len()];
        assert(msg_bytes@ =~= data@.skip(4));
        let mut end: usize = 0;
        while end < msg_bytes.len() && msg_bytes[end] != 0
            invariant
                end <= msg_bytes@.len(),
                first_zero_from(msg_bytes@, 0) == first_zero_from(msg_bytes@, end as int),
            decreases msg_bytes.len() - end,
        {
            end = end + 1;
        }
        let text = &msg_bytes[0..end];
        assert(text@ =~= msg_bytes@.take(first_zero_from(msg_bytes@, 0)));
        match str_from_utf8(text) {
            Some(s) => s.to_string(),
            None => "invalid error message".to_string(),
        }
    } else {
        String::new()
    };
    Ok(Packet::Error { code: ErrorCode::from_u16(code), message })
}

fn parse_oack(data: &[u8]) -> (r: Result<Packet, ParseError>)
    requires
        data@.len() >= 2,
    ensures
        result_view(r) == match spec_options(
            split_nul(data@.skip(2)),
            0,
            "invalid option name in OACK"@,
            "invalid option value in OACK"@,
        ) {
            Err(e) => Err::<PacketView, ParseErrorView>(ParseErrorView::Malformed(e)),
            Ok(options) => Ok(PacketView::Oack { options }),
        },
{
    let payload = &data[2..data.len()];
    assert(payload@ =~= data@.skip(2));
    let strings = parse_null_terminated_strings(payload);
    match parse_options(&strings, 0, "invalid option name in OACK", "invalid option value in OACK") {
        Ok(options) => Ok(Packet::Oack { options }),
        Err(m) => Err(ParseError::Malformed(m)),
    }
}


// ─── Encoding ──────────────────────────────────────────────────────────────

pub proof fn lemma_options_bytes_prefix(opts: Seq<OptionView>, i: int)
    requires
        0 <= i <= opts.len(),
    ensures
        options_bytes(opts.take(i)).len() <= options_bytes(opts).len(),
    decreases opts.len() - i,
{
    if i < opts.len() {
        lemma_options_bytes_prefix(opts, i + 1);
        assert(opts.take(i + 1).drop_last() =~= opts.take(i));
    } else {
        assert(opts.take(i) =~= opts);
    }
}

/// A capacity hint that `BytesMut::with_capacity` accepts: the fixed bytes,
/// 20 bytes per option, capped at `isize::MAX`.
fn capacity_hint(base: usize, extra: usize, n_options: usize) -> (r: usize)
    ensures
        r == (if base + extra + 20 * n_options > isize::MAX {
            isize::MAX as int
        } else {
            base + extra + 20 * n_options
        }),
{
    let per_options = match n_options.checked_mul(20) {
        Some(x) => x,
        None => usize::MAX,
    };
    let cap = base.saturating_add(extra).saturating_add(per_options);
    if cap > isize::MAX as usize {
        isize::MAX as usize
    } else {
        cap
    }
}

/// Append the encoding of each option to `buf`.
fn put_options(buf: &mut BytesMut, options: &[TftpOption], Ghost(total): Ghost<Seq<u8>>)
    requires
        bytes_mut_contents(*old(buf)) + options_bytes(options_view(options@)) == total,
        total.len() <= isize::MAX,
    ensures
        bytes_mut_contents(*final(buf)) == total,
{
    let ghost start = bytes_mut_contents(*buf);
    let ghost ov = options_view(options@);
    let mut i: usize = 0;
    while i < options.len()
        invariant
            i <= options@.len(),
            ov == options_view(options@),
            start + options_bytes(ov) == total,
            total.len() <= isize::MAX,
            bytes_mut_contents(*buf) == start + options_bytes(ov.take(i as int)),
        decreases options.len() - i,
    {
        proof {
            lemma_options_bytes_prefix(ov, i + 1);
            assert(ov.take(i + 1).drop_last() =~= ov.take(i as int));
            assert(ov.take(i + 1).last() == ov[i as int]);
        }
        let opt = &options[i];
        let name = opt.name.as_str().as_bytes();
        let value = opt.value.as_str().as_bytes();
        bytes_put_slice(buf, name);
        bytes_put_u8(buf, 0);
        bytes_put_slice(buf, value);
        bytes_put_u8(buf, 0);
        assert(bytes_mut_contents(*buf) =~= start + options_bytes(ov.take(i + 1)));
        i = i + 1;
    }
    assert(ov.take(options@.len() as int) =~= ov);
}

fn serialize_request(opcode: u16, filename: &str, mode: &TransferMode, options: &[TftpOption]) -> (r:
    BytesMut)
    requires
        request_bytes(opcode, filename@, *mode, options_view(options@)).len() <= isize::MAX,
    ensures
        bytes_mut_contents(r) == request_bytes(opcode, filename@, *mode, options_view(options@)),
{
    let ghost total = request_bytes(opcode, filename@, *mode, options_view(options@));
    let name = filename.as_bytes();
    let mode_bytes = mode.as_str().as_bytes();
    let mut buf = bytes_with_capacity(capacity_hint(name.len(), 4 + mode_bytes.len(), options.len()));
    bytes_put_u16(&mut buf, opcode);
    bytes_put_slice(&mut buf, name);
    bytes_put_u8(&mut buf, 0);
    bytes_put_slice(&mut buf, mode_bytes);
    bytes_put_u8(&mut buf, 0);
    assert(bytes_mut_contents(buf) + options_bytes(options_view(options@)) =~= total);
    put_options(&mut buf, options, Ghost(total));
    buf
}

/// Serialize a packet into bytes
pub fn serialize_packet(packet: &Packet) -> (r: BytesMut)
    requires
        spec_serialize(packet@).len() <= isize::MAX,
    ensures
        bytes_mut_contents(r) == spec_serialize(packet@),
{
    match packet {
        Packet::Rrq { filename, mode, options } => serialize_request(
            Opcode::Rrq.code(),
            filename.as_str(),
            mode,
            options.as_slice(),
        ),
        Packet::Wrq { filename, mode, options } => serialize_request(
            Opcode::Wrq.code(),
            filename.as_str(),
            mode,
            options.as_slice(),
        ),
        Packet::Data { block, data } => {
            let mut buf = bytes_with_capacity(capacity_hint(4, data.len(), 0));
            bytes_put_u16(&mut buf, Opcode::Data.code());
            bytes_put_u16(&mut buf, *block);
            bytes_put_slice(&mut buf, data.as_slice());
            assert(bytes_mut_contents(buf) =~= spec_serialize(packet@));
            buf
        },
        Packet::Ack { block } => {
            let mut buf = bytes_with_capacity(4);
            bytes_put_u16(&mut buf, Opcode::Ack.code());
            bytes_put_u16(&mut buf, *block);
            assert(bytes_mut_contents(buf) =~= spec_serialize(packet@));
            buf
        },
        Packet::Error { code, message } => {
            let text = message.as_str().as_bytes();
            let mut buf = bytes_with_capacity(capacity_hint(5, text.len(), 0));
            bytes_put_u16(&mut buf, Opcode::Error.code());
            bytes_put_u16(&mut buf, code.code());
            bytes_put_slice(&mut buf, text);
            bytes_put_u8(&mut buf, 0);
            assert(bytes_mut_contents(buf) =~= spec_serialize(packet@));
            buf
        },
        Packet::Oack { options } => {
            let mut buf = bytes_with_capacity(capacity_hint(2, 0, options.len()));
            bytes_put_u16(&mut buf, Opcode::Oack.code());
            assert(bytes_mut_contents(buf) + options_bytes(options_view(options@)) =~= spec_serialize(packet@));
            put_options(&mut buf, options.as_slice(), Ghost(spec_serialize(packet@)));
            buf
        },
    }
}


// ─── Decoding undoes encoding ──────────────────────────────────────────────

/// The NUL-free strings an encoded option list consists of: name, value, name, ...
pub open spec fn option_pieces(opts: Seq<OptionView>) -> Seq<Seq<u8>>
    decreases opts.len(),
{
    if opts.len() == 0 {
        Seq::empty()
    } else {
        option_pieces(opts.drop_last()) + seq![
            encode_utf8(opts.last().name),
            encode_utf8(opts.last().value),
        ]
    }
}

/// Options that survive a round trip: no NUL inside, names already lower case.
pub open spec fn options_well_formed(opts: Seq<OptionView>) -> bool {
    forall|j: int|
        0 <= j < opts.len() ==> {
            &&& !has_zero(encode_utf8(#[trigger] opts[j].name))
            &&& !has_zero(encode_utf8(opts[j].value))
            &&& ascii_lower(opts[j].name) == opts[j].name
        }
}

/// Packets whose encoding decodes back to themselves.
pub open spec fn packet_well_formed(p: PacketView) -> bool {
    match p {
        PacketView::Rrq { filename, mode, options } => filename_problem(encode_utf8(filename)) is None
            && options_well_formed(options),
        PacketView::Wrq { filename, mode, options } => filename_problem(encode_utf8(filename)) is None
            && options_well_formed(options),
        PacketView::Data { .. } => true,
        PacketView::Ack { .. } => true,
        PacketView::Error { code, message } => !has_zero(encode_utf8(message)),
        PacketView::Oack { options } => options_well_formed(options),
    }
}

proof fn lemma_split_all_nonempty(s: Seq<u8>)
    ensures
        split_all(s).len() >= 1,
    decreases s.len(),
{
    if s.len() > 0 {
        lemma_split_all_nonempty(s.drop_last());
    }
}

proof fn lemma_split_all_no_zero(x: Seq<u8>)
    requires
        !has_zero(x),
    ensures
        split_all(x) == seq![x],
    decreases x.len(),
{
    if x.len() > 0 {
        assert(x.last() != 0) by {
            if x.last() == 0 {
                assert(x[x.len() - 1] == 0);
            }
        }
        assert(!has_zero(x.drop_last())) by {
            if has_zero(x.drop_last()) {
                let i = choose|i: int| 0 <= i < x.drop_last().len() && x.drop_last()[i] == 0;
                assert(x[i] == 0);
            }
        }
        lemma_split_all_no_zero(x.drop_last());
        assert(x.drop_last().push(x.last()) =~= x);
        assert(split_all(x) =~= seq![x]);
    } else {
        assert(x =~= Seq::<u8>::empty());
    }
}

/// Splitting after a NUL (or at the start) splits the two parts separately.
proof fn lemma_split_all_append(a: Seq<u8>, b: Seq<u8>)
    requires
        a.len() == 0 || a.last() == 0,
    ensures
        split_all(a + b) == split_all(a).drop_last() + split_all(b),
    decreases b.len(),
{
    lemma_split_all_nonempty(a);
    lemma_split_all_nonempty(b);
    if b.len() == 0 {
        assert(a + b =~= a);
        if a.len() == 0 {
            assert(split_all(a) =~= seq![Seq::<u8>::empty()]);
        } else {
            assert(split_all(a).last() == Seq::<u8>::empty());
        }
        assert(split_all(a).drop_last() + split_all(b) =~= split_all(a));
    } else {
        let ab = a + b;
        assert(ab.drop_last() =~= a + b.drop_last());
        assert(ab.last() == b.last());
        lemma_split_all_append(a, b.drop_last());
        lemma_split_all_nonempty(b.drop_last());
        if b.last() == 0 {
            assert(split_all(ab) =~= split_all(a).drop_last() + split_all(b));
        } else {
            let t = split_all(b.drop_last());
            let u = split_all(a).drop_last();
            assert((u + t).update((u + t).len() - 1, (u + t).last().push(b.last())) =~= u + t.update(
                t.len() - 1,
                t.last().push(b.last()),
            ));
            assert(split_all(ab) =~= split_all(a).drop_last() + split_all(b));
        }
    }
}

proof fn lemma_split_all_piece(x: Seq<u8>, y: Seq<u8>)
    requires
        !has_zero(x),
    ensures
        split_all(x + seq![0u8] + y) == seq![x] + split_all(y),
{
    let a = x + seq![0u8];
    assert(a.drop_last() =~= x);
    lemma_split_all_no_zero(x);
    assert(split_all(a) =~= seq![x, Seq::<u8>::empty()]);
    lemma_split_all_append(a, y);
    assert(split_all(a).drop_last() =~= seq![x]);
}

proof fn lemma_option_pieces_index(opts: Seq<OptionView>)
    ensures
        option_pieces(opts).len() == 2 * opts.len(),
        forall|j: int|
            0 <= j < opts.len() ==> option_pieces(opts)[2 * j] == encode_utf8(#[trigger] opts[j].name)
                && option_pieces(opts)[2 * j + 1] == encode_utf8(opts[j].value),
    decreases opts.len(),
{
    if opts.len() > 0 {
        lemma_option_pieces_index(opts.drop_last());
        assert forall|j: int| 0 <= j < opts.len() implies option_pieces(opts)[2 * j] == encode_utf8(
            #[trigger] opts[j].name,
        ) && option_pieces(opts)[2 * j + 1] == encode_utf8(opts[j].value) by {
            if j < opts.len() - 1 {
                assert(opts.drop_last()[j] == opts[j]);
            }
        }
    }
}

proof fn lemma_options_bytes_split(opts: Seq<OptionView>)
    requires
        options_well_formed(opts),
    ensures
        split_all(options_bytes(opts)) == option_pieces(opts).push(Seq::<u8>::empty()),
        options_bytes(opts).len() == 0 || options_bytes(opts).last() == 0,
    decreases opts.len(),
{
    if opts.len() == 0 {
        assert(split_all(Seq::<u8>::empty()) =~= seq![Seq::<u8>::empty()]);
    } else {
        let rest = opts.drop_last();
        let o = opts.last();
        assert(options_well_formed(rest)) by {
            assert forall|j: int| 0 <= j < rest.len() implies {
                &&& !has_zero(encode_utf8(#[trigger] rest[j].name))
                &&& !has_zero(encode_utf8(rest[j].value))
                &&& ascii_lower(rest[j].name) == rest[j].name
            } by {
                assert(rest[j] == opts[j]);
            }
        }
        assert(!has_zero(encode_utf8(opts[opts.len() - 1].name)));
        lemma_options_bytes_split(rest);
        let n = encode_utf8(o.name);
        let v = encode_utf8(o.value);
        assert(option_bytes(o) =~= n + seq![0u8] + (v + seq![0u8] + Seq::<u8>::empty()));
        lemma_split_all_piece(v, Seq::<u8>::empty());
        lemma_split_all_piece(n, v + seq![0u8] + Seq::<u8>::empty());
        assert(split_all(Seq::<u8>::empty()) =~= seq![Seq::<u8>::empty()]);
        lemma_split_all_append(options_bytes(rest), option_bytes(o));
        assert(option_pieces(rest).push(Seq::<u8>::empty()).drop_last() =~= option_pieces(rest));
        assert(split_all(options_bytes(opts)) =~= option_pieces(opts).push(Seq::<u8>::empty()));
    }
}

proof fn lemma_spec_options_of_pieces(
    strings: Seq<Seq<u8>>,
    k: int,
    opts: Seq<OptionView>,
    j: int,
    name_err: Seq<char>,
    value_err: Seq<char>,
)
    requires
        0 <= k,
        0 <= j <= opts.len(),
        options_well_formed(opts),
        strings.len() == k + 2 * opts.len(),
        forall|i: int|
            0 <= i < opts.len() ==> strings[k + 2 * i] == encode_utf8(#[trigger] opts[i].name)
                && strings[k + 2 * i + 1] == encode_utf8(opts[i].value),
    ensures
        spec_options(strings, k + 2 * j, name_err, value_err) == Ok::<
            Seq<OptionView>,
            Seq<char>,
        >(opts.skip(j)),
    decreases opts.len() - j,
{
    broadcast use vstd::utf8::encode_utf8_valid_utf8, vstd::utf8::encode_utf8_decode_utf8;

    if j < opts.len() {
        lemma_spec_options_of_pieces(strings, k, opts, j + 1, name_err, value_err);
        let o = opts[j];
        assert(strings[k + 2 * j] == encode_utf8(o.name));
        assert(strings[k + 2 * j + 1] == encode_utf8(o.value));
        assert(ascii_lower(o.name) == o.name);
        let ov = OptionView {
            name: ascii_lower(decode_utf8(strings[k + 2 * j])),
            value: decode_utf8(strings[k + 2 * j + 1]),
        };
        assert(ov == o);
        assert(seq![ov] + opts.skip(j + 1) =~= opts.skip(j));
    } else {
        assert(opts.skip(j) =~= Seq::<OptionView>::empty());
    }
}

proof fn lemma_first_zero_after(x: Seq<u8>, i: int)
    requires
        !has_zero(x),
        0 <= i <= x.len(),
    ensures
        first_zero_from(x + seq![0u8], i) == x.len(),
    decreases x.len() - i,
{
    if i < x.len() {
        assert((x + seq![0u8])[i] == x[i]);
        assert(x[i] != 0);
        lemma_first_zero_after(x, i + 1);
    }
}

proof fn lemma_mode_name_ascii(mode: TransferMode)
    ensures
        vstd::utf8::is_ascii_chars(mode.spec_name()),
        forall|i: int| 0 <= i < mode.spec_name().len() ==> mode.spec_name()[i] != '\0',
{
    reveal_strlit("octet");
    reveal_strlit("netascii");
}

proof fn lemma_mode_roundtrip(mode: TransferMode)
    ensures
        TransferMode::spec_from_chars(mode.spec_name()) == Some(mode),
{
    reveal_strlit("octet");
    reveal_strlit("netascii");
    assert(ascii_lower("octet"@) =~= "octet"@);
    assert(ascii_lower("netascii"@) =~= "netascii"@);
    assert("octet"@.len() != "netascii"@.len());
}

#[verifier::spinoff_prover]
proof fn lemma_request_roundtrip(
    op: u16,
    filename: Seq<char>,
    mode: TransferMode,
    options: Seq<OptionView>,
)
    requires
        op == 1 || op == 2,
        filename_problem(encode_utf8(filename)) is None,
        options_well_formed(options),
    ensures
        spec_parse_packet(request_bytes(op, filename, mode, options)) == if op == 1 {
            Ok::<PacketView, ParseErrorView>(PacketView::Rrq { filename, mode, options })
        } else {
            Ok::<PacketView, ParseErrorView>(PacketView::Wrq { filename, mode, options })
        },
{
    broadcast use vstd::utf8::encode_utf8_valid_utf8, vstd::utf8::encode_utf8_decode_utf8;

    let data = request_bytes(op, filename, mode, options);
    let f = encode_utf8(filename);
    let m = encode_utf8(mode.spec_name());
    let ob = options_bytes(options);
    assert(data.skip(2) =~= f + seq![0u8] + (m + seq![0u8] + ob));
    assert(!has_zero(f)) by {
        if has_zero(f) {
            let i = choose|i: int| 0 <= i < f.len() && f[i] == 0;
            lemma_first_control_found(f, 0, i);
        }
    }
    assert(!has_zero(m)) by {
        lemma_mode_name_ascii(mode);
        vstd::utf8::is_ascii_chars_encode_utf8(mode.spec_name());
        if has_zero(m) {
            let i = choose|i: int| 0 <= i < m.len() && m[i] == 0;
            assert(mode.spec_name()[i] as u8 == m[i]);
        }
    }
    lemma_split_all_piece(f, m + seq![0u8] + ob);
    lemma_split_all_piece(m, ob);
    lemma_options_bytes_split(options);
    let strings = split_nul(data.skip(2));
    assert(strings =~= seq![f, m] + option_pieces(options));
    lemma_option_pieces_index(options);
    assert forall|i: int| 0 <= i < options.len() implies strings[2 + 2 * i] == encode_utf8(
        #[trigger] options[i].name,
    ) && strings[2 + 2 * i + 1] == encode_utf8(options[i].value) by {
        assert(strings[2 + 2 * i] == option_pieces(options)[2 * i]);
        assert(strings[2 + 2 * i + 1] == option_pieces(options)[2 * i + 1]);
    }
    lemma_spec_options_of_pieces(
        strings,
        2,
        options,
        0,
        "invalid option name encoding"@,
        "invalid option value encoding"@,
    );
    assert(options.skip(0) =~= options);
    lemma_mode_roundtrip(mode);
    assert(data[0] == 0 && data[1] == op as u8);
}

proof fn lemma_first_control_found(s: Seq<u8>, i: int, z: int)
    requires
        0 <= i <= z < s.len(),
        s[z] < 0x20,
    ensures
        first_control_from(s, i) is Some,
    decreases z - i,
{
    if s[i] >= 0x20 {
        lemma_first_control_found(s, i + 1, z);
    }
}

/// Decoding the encoding of a well-formed packet gives the packet back: file
/// names must pass the name checks, option names must be in lower case, and
/// no text may hold a NUL.
pub proof fn lemma_parse_serialize_roundtrip(p: PacketView)
    requires
        packet_well_formed(p),
    ensures
        spec_parse_packet(spec_serialize(p)) == Ok::<PacketView, ParseErrorView>(p),
{
    broadcast use vstd::utf8::encode_utf8_valid_utf8, vstd::utf8::encode_utf8_decode_utf8;

    match p {
        PacketView::Rrq { filename, mode, options } => {
            lemma_request_roundtrip(1, filename, mode, options);
        },
        PacketView::Wrq { filename, mode, options } => {
            lemma_request_roundtrip(2, filename, mode, options);
        },
        PacketView::Data { block, data } => {
            let d = spec_serialize(p);
            assert(d.skip(4) =~= data);
            assert(be_u16(d[2], d[3]) == block);
        },
        PacketView::Ack { block } => {
            let d = spec_serialize(p);
            assert(be_u16(d[2], d[3]) == block);
        },
        PacketView::Error { code, message } => {
            lemma_error_roundtrip(code, message);
        },
        PacketView::Oack { options } => {
            lemma_oack_roundtrip(options);
        },
    }
}

proof fn lemma_error_roundtrip(code: ErrorCode, message: Seq<char>)
    requires
        !has_zero(encode_utf8(message)),
    ensures
        spec_parse_packet(spec_serialize(PacketView::Error { code, message })) == Ok::<
            PacketView,
            ParseErrorView,
        >(PacketView::Error { code, message }),
{
    broadcast use vstd::utf8::encode_utf8_valid_utf8, vstd::utf8::encode_utf8_decode_utf8;

    let d = spec_serialize(PacketView::Error { code, message });
    let mb = encode_utf8(message);
    assert(d.skip(4) =~= mb + seq![0u8]);
    lemma_first_zero_after(mb, 0);
    assert((mb + seq![0u8]).take(mb.len() as int) =~= mb);
    assert(be_u16(d[2], d[3]) == code.spec_code());
    assert(ErrorCode::spec_from_u16(code.spec_code()) == code);
    assert(spec_error_message(d) == message);
}

proof fn lemma_oack_roundtrip(options: Seq<OptionView>)
    requires
        options_well_formed(options),
    ensures
        spec_parse_packet(spec_serialize(PacketView::Oack { options })) == Ok::<
            PacketView,
            ParseErrorView,
        >(PacketView::Oack { options }),
{
    let d = spec_serialize(PacketView::Oack { options });
    assert(d.skip(2) =~= options_bytes(options));
    lemma_options_bytes_split(options);
    let strings = split_nul(d.skip(2));
    assert(strings =~= option_pieces(options));
    lemma_option_pieces_index(options);
    lemma_spec_options_of_pieces(
        strings,
        0,
        options,
        0,
        "invalid option name in OACK"@,
        "invalid option value in OACK"@,
    );
    assert(options.skip(0) =~= options);
}


/// A request that decodes names a file that passed the name checks: it is
/// not empty and holds no `..`, no `~` and no control character.
pub proof fn lemma_accepted_filename_checked(data: Seq<u8>)
    ensures
        spec_parse_packet(data) matches Ok(PacketView::Rrq { filename, .. }) ==> filename_problem(
            encode_utf8(filename),
        ) is None,
        spec_parse_packet(data) matches Ok(PacketView::Wrq { filename, .. }) ==> filename_problem(
            encode_utf8(filename),
        ) is None,
{
    broadcast use vstd::utf8::decode_utf8_encode_utf8;

    if data.len() >= 2 {
        let strings = split_nul(data.skip(2));
        if strings.len() >= 2 && valid_utf8(strings[0]) {
            assert(encode_utf8(decode_utf8(strings[0])) == strings[0]);
        }
    }
}

} // verus!
