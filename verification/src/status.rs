//! How internal errors are reported to gRPC clients: a status code chosen by
//! what went wrong, a message, and metadata naming the error kind.
//!
//! - bad input from the client: `InvalidArgument`
//! - the system's state forbids the operation: `FailedPrecondition`
//! - a resource is unavailable for now (hardware, connection, busy): `Unavailable`
//! - a limit was exceeded: `ResourceExhausted`
//! - a feature is disabled or unfinished: `Unimplemented`
//! - the client lacks permission: `PermissionDenied`
//! - a server-side failure: `Internal`
//! - an aborted operation: `Aborted`

use vstd::prelude::*;
use vstd::string::StringSliceAdditionalSpecFns;
use crate::panels::logging::utf8;
use crate::text::{decimal, push_decimal, push_str, string_from_chars, string_of, chars_of};

verus! {

/// What went wrong in a driver.
#[derive(Debug, Clone, Copy, PartialEq, Eq, Structural)]
pub enum DriverErrorKind {
    Configuration,
    InvalidParameter,
    Initialization,
    Communication,
    Hardware,
    Timeout,
    Permission,
    Shutdown,
    Unknown,
}

/// A driver failure: the driver, the kind of failure, and the texts the
/// error and its kind display as.
#[derive(Debug)]
pub struct DriverError {
    pub driver_type: String,
    pub kind: DriverErrorKind,
    /// How the kind displays, such as "initialization".
    pub kind_text: String,
    /// How the whole error displays.
    pub text: String,
}

/// Errors of the acquisition system, each with the data its report shows.
/// Wrapped errors (configuration, I/O) are held as their display text.
#[derive(Debug)]
pub enum DaqError {
    Config(String),
    Configuration(String),
    Instrument(String),
    Driver(DriverError),
    SerialPortNotConnected,
    ModuleBusyDuringOperation,
    SerialUnexpectedEof,
    SerialFeatureDisabled,
    FrameDimensionsTooLarge { width: u64, height: u64, max_dimension: u64 },
    FrameTooLarge { bytes: u64, max_bytes: u64 },
    ResponseTooLarge { bytes: u64, max_bytes: u64 },
    ScriptTooLarge { bytes: u64, max_bytes: u64 },
    SizeOverflow { context: String },
    ModuleOperationNotSupported(String),
    CameraNotAssigned,
    FeatureNotEnabled(String),
    FeatureIncomplete(String, String),
    /// Display texts of the errors that made shutdown fail.
    ShutdownFailed(Vec<String>),
    ParameterNoSubscribers,
    ParameterReadOnly,
    ParameterInvalidChoice,
    ParameterNoHardwareReader,
    Io(String),
    Tokio(String),
    Processing(String),
}

/// The gRPC status codes errors are reported with.
#[derive(Debug, Clone, Copy, PartialEq, Eq, Structural)]
pub enum GrpcCode {
    InvalidArgument,
    DeadlineExceeded,
    PermissionDenied,
    ResourceExhausted,
    FailedPrecondition,
    Aborted,
    Unimplemented,
    Internal,
    Unavailable,
}

/// A status for a client: code, message, and ASCII metadata entries.
#[derive(Debug)]
pub struct ErrorStatus {
    pub code: GrpcCode,
    pub message: String,
    pub metadata: Vec<(String, String)>,
}

/// Metadata key naming the error kind.
pub const ERROR_KIND_HEADER: &'static str = "x-daq-error-kind";
/// Metadata key naming the driver.
pub const DRIVER_TYPE_HEADER: &'static str = "x-daq-driver-type";
/// Metadata key naming the driver error kind.
pub const DRIVER_KIND_HEADER: &'static str = "x-daq-driver-kind";

/// ASCII whitespace (`str::trim` on an ASCII text removes exactly these).
pub open spec fn is_ascii_space(c: char) -> bool {
    c == ' ' || c == '\t' || c == '\n' || c == '\r' || c == '\x0B' || c == '\x0C'
}

/// The ASCII characters of `s`, in order.
pub open spec fn ascii_only(s: Seq<char>) -> Seq<char> {
    s.filter(|c: char| (c as u32) < 128)
}

/// `s` without leading ASCII whitespace.
pub open spec fn trim_space_start(s: Seq<char>) -> Seq<char>
    decreases s.len(),
{
    if s.len() > 0 && is_ascii_space(s[0]) {
        trim_space_start(s.drop_first())
    } else {
        s
    }
}

/// `s` without trailing ASCII whitespace.
pub open spec fn trim_space_end(s: Seq<char>) -> Seq<char>
    decreases s.len(),
{
    if s.len() > 0 && is_ascii_space(s.last()) {
        trim_space_end(s.drop_last())
    } else {
        s
    }
}

/// A metadata value made safe: non-ASCII characters dropped, surrounding
/// whitespace trimmed, and "unknown" when nothing is left.
pub open spec fn sanitized_value(value: Seq<char>) -> Seq<char> {
    let t = trim_space_end(trim_space_start(ascii_only(value)));
    if t.len() == 0 {
        "unknown"@
    } else {
        t
    }
}

/// Bytes a header value may hold: visible ASCII and tab, and bytes from 128 up.
pub open spec fn header_byte_ok(b: u8) -> bool {
    (b >= 32 && b != 127) || b == 9
}

/// A text that tonic accepts as an ASCII metadata value.
pub open spec fn header_value_ok(value: Seq<char>) -> bool {
    forall|i: int| 0 <= i < utf8(value).len() ==> header_byte_ok(#[trigger] utf8(value)[i])
}

/// Does tonic accept the text as an ASCII metadata value
/// (`MetadataValue::<Ascii>::from_str`)? It accepts exactly the texts whose
/// every byte is visible ASCII, a tab, or 128 and above.
#[verifier::external_body]
fn metadata_value_accepted(value: &str) -> (r: bool)
    ensures
        r == header_value_ok(value@),
{
    match <tonic::metadata::MetadataValue<tonic::metadata::Ascii> as std::str::FromStr>::from_str(value) {
        Ok(_) => true,
        Err(_) => false,
    }
}

fn is_space(c: char) -> (r: bool)
    ensures
        r == is_ascii_space(c),
{
    c == ' ' || c == '\t' || c == '\n' || c == '\r' || c == '\x0B' || c == '\x0C'
}

/// Make a text safe as a metadata value.
pub fn sanitize_metadata_value(value: &str) -> (r: String)
    ensures
        r@ == sanitized_value(value@),
{
    let chars = chars_of(value);
    let mut ascii: Vec<char> = Vec::new();
    let mut i: usize = 0;
    while i < chars.len()
        invariant
            chars@ == value@,
            i <= chars.len(),
            ascii@ == ascii_only(chars@.take(i as int)),
        decreases chars.len() - i,
    {
        let c = chars[i];
        proof {
            assert(chars@.take(i as int + 1).drop_last() =~= chars@.take(i as int));
            chars@.take(i as int).lemma_filter_push(c, |c: char| (c as u32) < 128);
            assert(chars@.take(i as int + 1) =~= chars@.take(i as int).push(c));
        }
        if (c as u32) < 128 {
            ascii.push(c);
        }
        i = i + 1;
    }
    proof {
        assert(chars@.take(chars.len() as int) =~= chars@);
    }
    let mut a: usize = 0;
    proof {
        assert(ascii@.skip(0) =~= ascii@);
    }
    while a < ascii.len() && is_space(ascii[a])
        invariant
            a <= ascii.len(),
            trim_space_start(ascii@.skip(a as int)) == trim_space_start(ascii@),
        decreases ascii.len() - a,
    {
        proof {
            assert(ascii@.skip(a as int).drop_first() =~= ascii@.skip(a as int + 1));
        }
        a = a + 1;
    }
    let ghost t = ascii@.skip(a as int);
    let mut b: usize = ascii.len();
    proof {
        assert(t.take(t.len() as int) =~= t);
    }
    while b > a && is_space(ascii[b - 1])
        invariant
            a <= b <= ascii.len(),
            t == ascii@.skip(a as int),
            trim_space_end(t.take(b - a)) == trim_space_end(t),
        decreases b,
    {
        proof {
            assert(t.take(b - a).drop_last() =~= t.take(b - a - 1));
            assert(t.take(b - a).last() == ascii@[b - 1]);
        }
        b = b - 1;
    }
    if a == b {
        proof {
            assert(t.take(0) =~= Seq::<char>::empty());
        }
        return string_of("unknown");
    }
    let trimmed = crate::text::subrange_chars(&ascii, a, b);
    proof {
        assert(trimmed@ =~= t.take(b - a));
    }
    string_from_chars(&trimmed)
}

/// Metadata entries offered for a status (before tonic's value check).
pub open spec fn offered_metadata(err: DaqError) -> Seq<(Seq<char>, Seq<char>)> {
    match err {
        DaqError::Instrument(_) => seq![(ERROR_KIND_HEADER@, sanitized_value("instrument"@))],
        DaqError::Driver(d) => seq![
            (ERROR_KIND_HEADER@, sanitized_value("driver"@)),
            (DRIVER_TYPE_HEADER@, sanitized_value(d.driver_type@)),
            (DRIVER_KIND_HEADER@, sanitized_value(d.kind_text@)),
        ],
        _ => Seq::empty(),
    }
}

/// The offered entries whose values tonic accepts, in order.
pub open spec fn kept_metadata(entries: Seq<(Seq<char>, Seq<char>)>) -> Seq<(Seq<char>, Seq<char>)> {
    entries.filter(|e: (Seq<char>, Seq<char>)| header_value_ok(e.1))
}

/// Status code for an error.
pub open spec fn status_code(err: DaqError) -> GrpcCode {
    match err {
        DaqError::Config(_) => GrpcCode::InvalidArgument,
        DaqError::Configuration(_) => GrpcCode::InvalidArgument,
        DaqError::Instrument(_) => GrpcCode::Unavailable,
        DaqError::Driver(d) => match d.kind {
            DriverErrorKind::Configuration | DriverErrorKind::InvalidParameter => GrpcCode::InvalidArgument,
            DriverErrorKind::Initialization => GrpcCode::FailedPrecondition,
            DriverErrorKind::Communication | DriverErrorKind::Hardware => GrpcCode::Unavailable,
            DriverErrorKind::Timeout => GrpcCode::DeadlineExceeded,
            DriverErrorKind::Permission => GrpcCode::PermissionDenied,
            DriverErrorKind::Shutdown | DriverErrorKind::Unknown => GrpcCode::Internal,
        },
        DaqError::SerialPortNotConnected => GrpcCode::Unavailable,
        DaqError::ModuleBusyDuringOperation => GrpcCode::Unavailable,
        DaqError::SerialUnexpectedEof => GrpcCode::Aborted,
        DaqError::SerialFeatureDisabled => GrpcCode::Unimplemented,
        DaqError::FrameDimensionsTooLarge { .. } => GrpcCode::ResourceExhausted,
        DaqError::FrameTooLarge { .. } => GrpcCode::ResourceExhausted,
        DaqError::ResponseTooLarge { .. } => GrpcCode::ResourceExhausted,
        DaqError::ScriptTooLarge { .. } => GrpcCode::ResourceExhausted,
        DaqError::SizeOverflow { .. } => GrpcCode::ResourceExhausted,
        DaqError::ModuleOperationNotSupported(_) => GrpcCode::Unimplemented,
        DaqError::CameraNotAssigned => GrpcCode::FailedPrecondition,
        DaqError::FeatureNotEnabled(_) => GrpcCode::Unimplemented,
        DaqError::FeatureIncomplete(_, _) => GrpcCode::Unimplemented,
        DaqError::ShutdownFailed(_) => GrpcCode::Internal,
        DaqError::ParameterNoSubscribers => GrpcCode::FailedPrecondition,
        DaqError::ParameterReadOnly => GrpcCode::PermissionDenied,
        DaqError::ParameterInvalidChoice => GrpcCode::InvalidArgument,
        DaqError::ParameterNoHardwareReader => GrpcCode::FailedPrecondition,
        DaqError::Io(_) => GrpcCode::Internal,
        DaqError::Tokio(_) => GrpcCode::Internal,
        DaqError::Processing(_) => GrpcCode::Internal,
    }
}

/// Texts joined with "; ".
pub open spec fn joined(texts: Seq<Seq<char>>) -> Seq<char>
    decreases texts.len(),
{
    if texts.len() == 0 {
        Seq::empty()
    } else if texts.len() == 1 {
        texts[0]
    } else {
        joined(texts.drop_last()) + "; "@ + texts.last()
    }
}

/// "what bytes exceeds maximum max" for the size limits.
pub open spec fn size_message(what: Seq<char>, bytes: u64, max_bytes: u64) -> Seq<char> {
    what + " size "@ + decimal(bytes as nat) + " bytes exceeds maximum "@ + decimal(max_bytes as nat)
}

/// Status message for an error.
pub open spec fn status_message(err: DaqError) -> Seq<char> {
    match err {
        DaqError::Config(e) => "Config error: "@ + e@,
        DaqError::Configuration(m) => "Configuration error: "@ + m@,
        DaqError::Instrument(m) => "Instrument error: "@ + m@,
        DaqError::Driver(d) => d.text@,
        DaqError::SerialPortNotConnected => "Serial port not connected"@,
        DaqError::ModuleBusyDuringOperation => "Module busy during operation"@,
        DaqError::SerialUnexpectedEof => "Serial communication: unexpected EOF"@,
        DaqError::SerialFeatureDisabled => "Serial feature is disabled"@,
        DaqError::FrameDimensionsTooLarge { width, height, max_dimension } => "Frame dimensions "@ + decimal(
            width as nat,
        ) + "x"@ + decimal(height as nat) + " exceed maximum "@ + decimal(max_dimension as nat),
        DaqError::FrameTooLarge { bytes, max_bytes } => size_message("Frame"@, bytes, max_bytes),
        DaqError::ResponseTooLarge { bytes, max_bytes } => size_message("Response"@, bytes, max_bytes),
        DaqError::ScriptTooLarge { bytes, max_bytes } => size_message("Script"@, bytes, max_bytes),
        DaqError::SizeOverflow { context } => "Size overflow in "@ + context@,
        DaqError::ModuleOperationNotSupported(op) => "Operation not supported: "@ + op@,
        DaqError::CameraNotAssigned => "Camera not assigned to module"@,
        DaqError::FeatureNotEnabled(f) => "Feature not enabled: "@ + f@,
        DaqError::FeatureIncomplete(f, reason) => "Feature '"@ + f@ + "' incomplete: "@ + reason@,
        DaqError::ShutdownFailed(errors) => "Shutdown failed: "@ + joined(errors@.map_values(|e: String| e@)),
        DaqError::ParameterNoSubscribers => "No subscribers for parameter update"@,
        DaqError::ParameterReadOnly => "Parameter is read-only"@,
        DaqError::ParameterInvalidChoice => "Invalid parameter choice"@,
        DaqError::ParameterNoHardwareReader => "Parameter has no hardware reader configured"@,
        DaqError::Io(e) => "I/O error: "@ + e@,
        DaqError::Tokio(e) => "Tokio I/O error: "@ + e@,
        DaqError::Processing(m) => "Processing error: "@ + m@,
    }
}

/// Metadata entries as character sequences.
pub open spec fn metadata_view(m: Seq<(String, String)>) -> Seq<(Seq<char>, Seq<char>)> {
    m.map_values(|e: (String, String)| (e.0@, e.1@))
}

fn text_of(prefix: &str, rest: &str) -> (r: String)
    ensures
        r@ == prefix@ + rest@,
{
    let mut r = string_of(prefix);
    push_str(&mut r, rest);
    r
}

fn size_text(what: &str, bytes: u64, max_bytes: u64) -> (r: String)
    ensures
        r@ == size_message(what@, bytes, max_bytes),
{
    let mut r = string_of(what);
    push_str(&mut r, " size ");
    push_decimal(&mut r, bytes);
    push_str(&mut r, " bytes exceeds maximum ");
    push_decimal(&mut r, max_bytes);
    r
}

/// Add a sanitized metadata entry when tonic accepts the value.
fn offer(metadata: &mut Vec<(String, String)>, key: &str, value: &str)
    ensures
        metadata_view(final(metadata)@) == if header_value_ok(sanitized_value(value@)) {
            metadata_view(old(metadata)@).push((key@, sanitized_value(value@)))
        } else {
            metadata_view(old(metadata)@)
        },
{
    let v = sanitize_metadata_value(value);
    if metadata_value_accepted(v.as_str()) {
        let ghost before = metadata@;
        metadata.push((string_of(key), v));
        proof {
            assert(metadata_view(metadata@) =~= metadata_view(before).push((key@, sanitized_value(value@))));
        }
    }
}

/// Status for an error: its code and message, and for instrument and
/// driver errors metadata naming the error kind (and the driver and its
/// failure kind), each value sanitized and kept only if tonic accepts it.
pub fn map_daq_error_to_status(err: DaqError) -> (r: ErrorStatus)
    ensures
        r.code == status_code(err),
        r.message@ == status_message(err),
        metadata_view(r.metadata@) == kept_metadata(offered_metadata(err)),
{
    let code = match &err {
        DaqError::Driver(d) => match d.kind {
            DriverErrorKind::Configuration | DriverErrorKind::InvalidParameter => GrpcCode::InvalidArgument,
            DriverErrorKind::Initialization => GrpcCode::FailedPrecondition,
            DriverErrorKind::Communication | DriverErrorKind::Hardware => GrpcCode::Unavailable,
            DriverErrorKind::Timeout => GrpcCode::DeadlineExceeded,
            DriverErrorKind::Permission => GrpcCode::PermissionDenied,
            DriverErrorKind::Shutdown | DriverErrorKind::Unknown => GrpcCode::Internal,
        },
        DaqError::Config(_) | DaqError::Configuration(_) | DaqError::ParameterInvalidChoice => GrpcCode::InvalidArgument,
        DaqError::Instrument(_) | DaqError::SerialPortNotConnected | DaqError::ModuleBusyDuringOperation => GrpcCode::Unavailable,
        DaqError::SerialUnexpectedEof => GrpcCode::Aborted,
        DaqError::SerialFeatureDisabled | DaqError::ModuleOperationNotSupported(_) | DaqError::FeatureNotEnabled(_)
        | DaqError::FeatureIncomplete(_, _) => GrpcCode::Unimplemented,
        DaqError::FrameDimensionsTooLarge { .. } | DaqError::FrameTooLarge { .. } | DaqError::ResponseTooLarge { .. }
        | DaqError::ScriptTooLarge { .. } | DaqError::SizeOverflow { .. } => GrpcCode::ResourceExhausted,
        DaqError::CameraNotAssigned | DaqError::ParameterNoSubscribers | DaqError::ParameterNoHardwareReader => GrpcCode::FailedPrecondition,
        DaqError::ParameterReadOnly => GrpcCode::PermissionDenied,
        DaqError::ShutdownFailed(_) | DaqError::Io(_) | DaqError::Tokio(_) | DaqError::Processing(_) => GrpcCode::Internal,
    };
    let message = match &err {
        DaqError::Config(e) => text_of("Config error: ", e.as_str()),
        DaqError::Configuration(m) => text_of("Configuration error: ", m.as_str()),
        DaqError::Instrument(m) => text_of("Instrument error: ", m.as_str()),
        DaqError::Driver(d) => d.text.clone(),
        DaqError::SerialPortNotConnected => string_of("Serial port not connected"),
        DaqError::ModuleBusyDuringOperation => string_of("Module busy during operation"),
        DaqError::SerialUnexpectedEof => string_of("Serial communication: unexpected EOF"),
        DaqError::SerialFeatureDisabled => string_of("Serial feature is disabled"),
        DaqError::FrameDimensionsTooLarge { width, height, max_dimension } => {
            let mut m = string_of("Frame dimensions ");
            push_decimal(&mut m, *width);
            push_str(&mut m, "x");
            push_decimal(&mut m, *height);
            push_str(&mut m, " exceed maximum ");
            push_decimal(&mut m, *max_dimension);
            m
        },
        DaqError::FrameTooLarge { bytes, max_bytes } => size_text("Frame", *bytes, *max_bytes),
        DaqError::ResponseTooLarge { bytes, max_bytes } => size_text("Response", *bytes, *max_bytes),
        DaqError::ScriptTooLarge { bytes, max_bytes } => size_text("Script", *bytes, *max_bytes),
        DaqError::SizeOverflow { context } => text_of("Size overflow in ", context.as_str()),
        DaqError::ModuleOperationNotSupported(op) => text_of("Operation not supported: ", op.as_str()),
        DaqError::CameraNotAssigned => string_of("Camera not assigned to module"),
        DaqError::FeatureNotEnabled(f) => text_of("Feature not enabled: ", f.as_str()),
        DaqError::FeatureIncomplete(f, reason) => {
            let mut m = string_of("Feature '");
            push_str(&mut m, f.as_str());
            push_str(&mut m, "' incomplete: ");
            push_str(&mut m, reason.as_str());
            m
        },
        DaqError::ShutdownFailed(errors) => {
            let mut m = string_of("Shutdown failed: ");
            let ghost texts = errors@.map_values(|e: String| e@);
            let ghost start = m@;
            let mut k: usize = 0;
            while k < errors.len()
                invariant
                    k <= errors.len(),
                    texts == errors@.map_values(|e: String| e@),
                    m@ == start + joined(texts.take(k as int)),
                decreases errors.len() - k,
            {
                if k > 0 {
                    push_str(&mut m, "; ");
                }
                push_str(&mut m, errors[k].as_str());
                proof {
                    assert(texts.take(k as int + 1).drop_last() =~= texts.take(k as int));
                    if k == 0 {
                        assert(joined(texts.take(1)) == texts[0]);
                    }
                }
                k = k + 1;
            }
            proof {
                assert(texts.take(errors.len() as int) =~= texts);
            }
            m
        },
        DaqError::ParameterNoSubscribers => string_of("No subscribers for parameter update"),
        DaqError::ParameterReadOnly => string_of("Parameter is read-only"),
        DaqError::ParameterInvalidChoice => string_of("Invalid parameter choice"),
        DaqError::ParameterNoHardwareReader => string_of("Parameter has no hardware reader configured"),
        DaqError::Io(e) => text_of("I/O error: ", e.as_str()),
        DaqError::Tokio(e) => text_of("Tokio I/O error: ", e.as_str()),
        DaqError::Processing(m) => text_of("Processing error: ", m.as_str()),
    };
    let mut metadata: Vec<(String, String)> = Vec::new();
    match &err {
        DaqError::Instrument(_) => {
            offer(&mut metadata, ERROR_KIND_HEADER, "instrument");
        },
        DaqError::Driver(d) => {
            offer(&mut metadata, ERROR_KIND_HEADER, "driver");
            offer(&mut metadata, DRIVER_TYPE_HEADER, d.driver_type.as_str());
            offer(&mut metadata, DRIVER_KIND_HEADER, d.kind_text.as_str());
        },
        _ => {},
    }
    proof {
        let f = |e: (Seq<char>, Seq<char>)| header_value_ok(e.1);
        let offered = offered_metadata(err);
        if offered.len() == 1 {
            assert(offered =~= Seq::<(Seq<char>, Seq<char>)>::empty().push(offered[0]));
            Seq::<(Seq<char>, Seq<char>)>::empty().lemma_filter_push(offered[0], f);
            assert(Seq::<(Seq<char>, Seq<char>)>::empty().filter(f) =~= Seq::<(Seq<char>, Seq<char>)>::empty());
        } else if offered.len() == 3 {
            let e0 = Seq::<(Seq<char>, Seq<char>)>::empty();
            let e1 = e0.push(offered[0]);
            let e2 = e1.push(offered[1]);
            assert(offered =~= e2.push(offered[2]));
            assert(e0.filter(f) =~= e0);
            e0.lemma_filter_push(offered[0], f);
            e1.lemma_filter_push(offered[1], f);
            e2.lemma_filter_push(offered[2], f);
        } else {
            assert(offered =~= Seq::<(Seq<char>, Seq<char>)>::empty());
            assert(offered.filter(f) =~= Seq::<(Seq<char>, Seq<char>)>::empty());
        }
    }
    ErrorStatus { code, message, metadata }
}

proof fn lemma_trim_space_start(s: Seq<char>)
    ensures
        exists|k: int| 0 <= k <= s.len() && trim_space_start(s) == s.skip(k),
        trim_space_start(s).len() > 0 ==> !is_ascii_space(trim_space_start(s)[0]),
    decreases s.len(),
{
    if s.len() > 0 && is_ascii_space(s[0]) {
        lemma_trim_space_start(s.drop_first());
        let k = choose|k: int| 0 <= k <= s.drop_first().len() && trim_space_start(s.drop_first()) == s.drop_first().skip(k);
        assert(s.drop_first().skip(k) =~= s.skip(k + 1));
    } else {
        assert(s.skip(0) =~= s);
    }
}

proof fn lemma_trim_space_end(s: Seq<char>)
    ensures
        exists|k: int| 0 <= k <= s.len() && trim_space_end(s) == s.take(k),
        trim_space_end(s).len() > 0 ==> !is_ascii_space(trim_space_end(s).last()),
    decreases s.len(),
{
    if s.len() > 0 && is_ascii_space(s.last()) {
        lemma_trim_space_end(s.drop_last());
        let k = choose|k: int| 0 <= k <= s.drop_last().len() && trim_space_end(s.drop_last()) == s.drop_last().take(k);
        assert(s.drop_last().take(k) =~= s.take(k));
    } else {
        assert(s.take(s.len() as int) =~= s);
    }
}

/// A sanitized metadata value is never empty, is all ASCII, and neither
/// starts nor ends with whitespace.
pub proof fn lemma_sanitized_value_is_clean(value: Seq<char>)
    ensures
        sanitized_value(value).len() > 0,
        forall|i: int| 0 <= i < sanitized_value(value).len() ==> (#[trigger] sanitized_value(value)[i] as u32) < 128,
        !is_ascii_space(sanitized_value(value)[0]),
        !is_ascii_space(sanitized_value(value).last()),
{
    let pred = |c: char| (c as u32) < 128;
    let a = ascii_only(value);
    value.filter_lemma(pred);
    lemma_trim_space_start(a);
    let b = trim_space_start(a);
    let k1 = choose|k: int| 0 <= k <= a.len() && b == a.skip(k);
    lemma_trim_space_end(b);
    let t = trim_space_end(b);
    let k2 = choose|k: int| 0 <= k <= b.len() && t == b.take(k);
    if t.len() > 0 {
        assert forall|i: int| 0 <= i < t.len() implies (#[trigger] t[i] as u32) < 128 by {
            assert(t[i] == a[i + k1]);
        }
        assert(t[0] == b[0]);
    } else {
        reveal_strlit("unknown");
    }
}

} // verus!
