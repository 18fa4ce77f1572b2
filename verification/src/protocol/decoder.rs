//! Inbound frames: the typed responses the hardware sends and their decoding
//! from the raw byte stream.
//!
//! A value frame `(address,value)` carries a [`Value`]; a structured frame
//! `{...}` carries a [`SerialNumber`], [`Scene`] or [`Config`] depending on
//! its field count.  Decoding consumes only whole frames, leaves partial
//! frames in the buffer, and silently drops malformed ones.

use vstd::prelude::*;

use crate::protocol::codec::LumenCacheCodec;
use crate::protocol::text::{
    parse_i16_chars, parse_u8_chars, spec_parse_i16, spec_parse_u8, spec_trim, split_commas,
    split_commas_chars, str_to_chars, trim_chars,
};

verus! {

// ---------------------------------------------------------------------------
// Response types
// ---------------------------------------------------------------------------

/// An inbound frame, decoded.
#[derive(Debug, Clone)]
pub enum Response {
    Value(Value),
    SerialNumber(SerialNumber),
    Scene(Scene),
    Config(Config),
}

/// A value report: module `id` currently outputs `value`.
#[derive(Debug, PartialEq, Eq, Structural, Clone, Copy)]
pub struct Value {
    pub id: u8,
    pub value: u8,
}

/// A serial-number report from module `id`.
#[derive(Debug, Clone)]
pub struct SerialNumber {
    pub id: u8,
    pub serial_number: String,
}

/// One stored scene entry of module `id`.  A negative `level` or `duration`
/// marks the entry invalid; consumers must discard it.
#[derive(Debug, PartialEq, Eq, Structural, Clone, Copy)]
pub struct Scene {
    pub id: u8,
    pub scene: u8,
    pub level: i16,
    pub duration: i16,
}

/// The full hardware/firmware configuration report of module `id`.
#[derive(Debug)]
pub struct Config {
    pub id: u8,
    pub hardware_type: u8,
    pub hardware_version: u8,
    pub firmware_version: String,
    pub hardware_serial_number: String,
    pub mode: u8,
    pub dimming_curve: u8,
    pub pwm_frequency: u8,
    pub minimum_output_pwm: u8,
    pub maximum_output_pwm: u8,
    pub resume_level: u8,
    pub ramp_duration: u8,
    pub motion_sensor_enable: u8,
    pub mode_6_alternate_actions: u8,
    pub inverted_output: u8,
}

impl Clone for Config {
    fn clone(&self) -> (r: Self)
        ensures
            r == *self,
    {
        Config {
            id: self.id,
            hardware_type: self.hardware_type,
            hardware_version: self.hardware_version,
            firmware_version: self.firmware_version.clone(),
            hardware_serial_number: self.hardware_serial_number.clone(),
            mode: self.mode,
            dimming_curve: self.dimming_curve,
            pwm_frequency: self.pwm_frequency,
            minimum_output_pwm: self.minimum_output_pwm,
            maximum_output_pwm: self.maximum_output_pwm,
            resume_level: self.resume_level,
            ramp_duration: self.ramp_duration,
            motion_sensor_enable: self.motion_sensor_enable,
            mode_6_alternate_actions: self.mode_6_alternate_actions,
            inverted_output: self.inverted_output,
        }
    }
}

// ---------------------------------------------------------------------------
// Mathematical models
// ---------------------------------------------------------------------------

/// The mathematical value of a [`SerialNumber`].
pub struct SerialNumberModel {
    pub id: u8,
    pub serial_number: Seq<char>,
}

/// The mathematical value of a [`Config`].
pub struct ConfigModel {
    pub id: u8,
    pub hardware_type: u8,
    pub hardware_version: u8,
    pub firmware_version: Seq<char>,
    pub hardware_serial_number: Seq<char>,
    pub mode: u8,
    pub dimming_curve: u8,
    pub pwm_frequency: u8,
    pub minimum_output_pwm: u8,
    pub maximum_output_pwm: u8,
    pub resume_level: u8,
    pub ramp_duration: u8,
    pub motion_sensor_enable: u8,
    pub mode_6_alternate_actions: u8,
    pub inverted_output: u8,
}

/// The mathematical value of a [`Response`].
pub enum ResponseModel {
    Value(Value),
    SerialNumber(SerialNumberModel),
    Scene(Scene),
    Config(ConfigModel),
}

impl View for SerialNumber {
    type V = SerialNumberModel;

    open spec fn view(&self) -> SerialNumberModel {
        SerialNumberModel { id: self.id, serial_number: self.serial_number@ }
    }
}

impl View for Config {
    type V = ConfigModel;

    open spec fn view(&self) -> ConfigModel {
        ConfigModel {
            id: self.id,
            hardware_type: self.hardware_type,
            hardware_version: self.hardware_version,
            firmware_version: self.firmware_version@,
            hardware_serial_number: self.hardware_serial_number@,
            mode: self.mode,
            dimming_curve: self.dimming_curve,
            pwm_frequency: self.pwm_frequency,
            minimum_output_pwm: self.minimum_output_pwm,
            maximum_output_pwm: self.maximum_output_pwm,
            resume_level: self.resume_level,
            ramp_duration: self.ramp_duration,
            motion_sensor_enable: self.motion_sensor_enable,
            mode_6_alternate_actions: self.mode_6_alternate_actions,
            inverted_output: self.inverted_output,
        }
    }
}

impl View for Response {
    type V = ResponseModel;

    open spec fn view(&self) -> ResponseModel {
        match self {
            Response::Value(v) => ResponseModel::Value(*v),
            Response::SerialNumber(s) => ResponseModel::SerialNumber(s@),
            Response::Scene(s) => ResponseModel::Scene(*s),
            Response::Config(c) => ResponseModel::Config(c@),
        }
    }
}

// ---------------------------------------------------------------------------
// Equality and cloning (`String` fields rule out the structural derives)
// ---------------------------------------------------------------------------

impl PartialEq for SerialNumber {
    fn eq(&self, other: &SerialNumber) -> (r: bool) {
        self.id == other.id && self.serial_number == other.serial_number
    }
}

impl vstd::std_specs::cmp::PartialEqSpecImpl for SerialNumber {
    open spec fn obeys_eq_spec() -> bool {
        true
    }

    open spec fn eq_spec(&self, other: &SerialNumber) -> bool {
        self@ == other@
    }
}

impl PartialEq for Config {
    fn eq(&self, other: &Config) -> (r: bool) {
        self.id == other.id && self.hardware_type == other.hardware_type
            && self.hardware_version == other.hardware_version
            && self.firmware_version == other.firmware_version
            && self.hardware_serial_number == other.hardware_serial_number
            && self.mode == other.mode && self.dimming_curve == other.dimming_curve
            && self.pwm_frequency == other.pwm_frequency
            && self.minimum_output_pwm == other.minimum_output_pwm
            && self.maximum_output_pwm == other.maximum_output_pwm
            && self.resume_level == other.resume_level
            && self.ramp_duration == other.ramp_duration
            && self.motion_sensor_enable == other.motion_sensor_enable
            && self.mode_6_alternate_actions == other.mode_6_alternate_actions
            && self.inverted_output == other.inverted_output
    }
}

impl vstd::std_specs::cmp::PartialEqSpecImpl for Config {
    open spec fn obeys_eq_spec() -> bool {
        true
    }

    open spec fn eq_spec(&self, other: &Config) -> bool {
        self@ == other@
    }
}

impl PartialEq for Response {
    fn eq(&self, other: &Response) -> (r: bool) {
        match (self, other) {
            (Response::Value(a), Response::Value(b)) => a == b,
            (Response::SerialNumber(a), Response::SerialNumber(b)) => a == b,
            (Response::Scene(a), Response::Scene(b)) => a == b,
            (Response::Config(a), Response::Config(b)) => a == b,
            _ => false,
        }
    }
}

impl vstd::std_specs::cmp::PartialEqSpecImpl for Response {
    open spec fn obeys_eq_spec() -> bool {
        true
    }

    open spec fn eq_spec(&self, other: &Response) -> bool {
        self@ == other@
    }
}

// ---------------------------------------------------------------------------
// Field-level parsing
// ---------------------------------------------------------------------------

/// Why a frame interior was rejected.
#[derive(Debug, PartialEq, Eq, Structural, Clone, Copy)]
pub enum ParseError {
    /// The interior held `found` comma-separated fields where `expected` were
    /// required.
    WrongFieldCount { expected: usize, found: usize },
    /// A field did not parse as the number its position calls for.
    BadField,
}

/// The comma-separated fields of a frame interior, each with surrounding
/// whitespace removed.
pub open spec fn trimmed_fields(s: Seq<char>) -> Seq<Seq<char>> {
    split_commas(s).map_values(|f: Seq<char>| spec_trim(f))
}

/// The response denoted by a value frame's fields: exactly two numeric
/// fields, address then value.
pub open spec fn spec_parse_value_fields(parts: Seq<Seq<char>>) -> Option<ResponseModel> {
    if parts.len() == 2 {
        match (spec_parse_u8(parts[0]), spec_parse_u8(parts[1])) {
            (Some(id), Some(value)) => Some(ResponseModel::Value(Value { id, value })),
            _ => None,
        }
    } else {
        None
    }
}

/// The response denoted by a value frame's interior.
pub open spec fn spec_parse_value_frame(s: Seq<char>) -> Option<ResponseModel> {
    spec_parse_value_fields(trimmed_fields(s))
}

/// The response denoted by a two-field structured frame: a numeric address
/// and a serial number taken verbatim.
pub open spec fn spec_parse_serial_fields(parts: Seq<Seq<char>>) -> Option<ResponseModel> {
    if parts.len() == 2 {
        match spec_parse_u8(parts[0]) {
            Some(id) => Some(
                ResponseModel::SerialNumber(
                    SerialNumberModel { id, serial_number: parts[1] },
                ),
            ),
            None => None,
        }
    } else {
        None
    }
}

/// The response denoted by a four-field structured frame: address, scene
/// index, then signed level and duration.
pub open spec fn spec_parse_scene_fields(parts: Seq<Seq<char>>) -> Option<ResponseModel> {
    if parts.len() == 4 {
        match (
            spec_parse_u8(parts[0]),
            spec_parse_u8(parts[1]),
            spec_parse_i16(parts[2]),
            spec_parse_i16(parts[3]),
        ) {
            (Some(id), Some(scene), Some(level), Some(duration)) => Some(
                ResponseModel::Scene(Scene { id, scene, level, duration }),
            ),
            _ => None,
        }
    } else {
        None
    }
}

/// The response denoted by a fifteen-field structured frame: the full
/// configuration report, with the firmware version and serial number taken
/// verbatim.
pub open spec fn spec_parse_config_fields(parts: Seq<Seq<char>>) -> Option<ResponseModel> {
    if parts.len() == 15 {
        match (
            spec_parse_u8(parts[0]),
            spec_parse_u8(parts[1]),
            spec_parse_u8(parts[2]),
            spec_parse_u8(parts[5]),
            spec_parse_u8(parts[6]),
            spec_parse_u8(parts[7]),
            spec_parse_u8(parts[8]),
            spec_parse_u8(parts[9]),
            spec_parse_u8(parts[10]),
            spec_parse_u8(parts[11]),
            spec_parse_u8(parts[12]),
            spec_parse_u8(parts[13]),
            spec_parse_u8(parts[14]),
        ) {
            (
                Some(id),
                Some(hardware_type),
                Some(hardware_version),
                Some(mode),
                Some(dimming_curve),
                Some(pwm_frequency),
                Some(minimum_output_pwm),
                Some(maximum_output_pwm),
                Some(resume_level),
                Some(ramp_duration),
                Some(motion_sensor_enable),
                Some(mode_6_alternate_actions),
                Some(inverted_output),
            ) => Some(
                ResponseModel::Config(
                    ConfigModel {
                        id,
                        hardware_type,
                        hardware_version,
                        firmware_version: parts[3],
                        hardware_serial_number: parts[4],
                        mode,
                        dimming_curve,
                        pwm_frequency,
                        minimum_output_pwm,
                        maximum_output_pwm,
                        resume_level,
                        ramp_duration,
                        motion_sensor_enable,
                        mode_6_alternate_actions,
                        inverted_output,
                    },
                ),
            ),
            _ => None,
        }
    } else {
        None
    }
}

/// The response denoted by a structured frame's interior: the field count
/// selects the response type.
pub open spec fn spec_parse_structured(s: Seq<char>) -> Option<ResponseModel> {
    let parts = trimmed_fields(s);
    if parts.len() == 2 {
        spec_parse_serial_fields(parts)
    } else if parts.len() == 4 {
        spec_parse_scene_fields(parts)
    } else if parts.len() == 15 {
        spec_parse_config_fields(parts)
    } else {
        None
    }
}

// ---------------------------------------------------------------------------
// Framing
// ---------------------------------------------------------------------------

/// Opens a value frame.
pub const BEGIN_RESPONSE: u8 = 0x28;

/// Closes a value frame.
pub const END_RESPONSE: u8 = 0x29;

/// Opens a structured frame.
pub const BEGIN_CONFIG: u8 = 0x7b;

/// Closes a structured frame.
pub const END_CONFIG: u8 = 0x7d;

/// Whether `b` opens a frame of either kind.
pub open spec fn is_opener(b: u8) -> bool {
    b == BEGIN_RESPONSE || b == BEGIN_CONFIG
}

/// The closing byte matching the opening byte `b`.
pub open spec fn closer_for(b: u8) -> u8 {
    if b == BEGIN_RESPONSE {
        END_RESPONSE
    } else {
        END_CONFIG
    }
}

/// The position of the first frame opener at or after `i`, if any.
pub open spec fn find_opener_from(s: Seq<u8>, i: int) -> Option<int>
    decreases s.len() - i,
{
    if i < 0 || i >= s.len() {
        None
    } else if is_opener(s[i]) {
        Some(i)
    } else {
        find_opener_from(s, i + 1)
    }
}

/// The position of the first occurrence of `b` at or after `i`, if any.
pub open spec fn find_byte_from(s: Seq<u8>, b: u8, i: int) -> Option<int>
    decreases s.len() - i,
{
    if i < 0 || i >= s.len() {
        None
    } else if s[i] == b {
        Some(i)
    } else {
        find_byte_from(s, b, i + 1)
    }
}

/// What one decoding step makes of the buffer `s`: the response of the first
/// complete frame, if any, and the bytes left in the buffer afterwards.
///
/// Without a frame opener, or without the matching closer after it, nothing
/// is consumed and nothing is returned.  A complete frame is consumed
/// together with all noise before it; if its interior is not valid text or
/// does not parse, it yields nothing, letting the stream resynchronize on
/// the next frame.
pub open spec fn spec_decode(s: Seq<u8>) -> (Option<ResponseModel>, Seq<u8>) {
    match find_opener_from(s, 0) {
        None => (None, s),
        Some(b) => match find_byte_from(s, closer_for(s[b]), b + 1) {
            None => (None, s),
            Some(e) => {
                let interior = s.subrange(b + 1, e);
                let rest = s.skip(e + 1);
                if !vstd::utf8::valid_utf8(interior) {
                    (None, rest)
                } else {
                    let chars = vstd::utf8::decode_utf8(interior);
                    if s[b] == BEGIN_CONFIG {
                        (spec_parse_structured(chars), rest)
                    } else {
                        (spec_parse_value_frame(chars), rest)
                    }
                }
            },
        },
    }
}

/// Where `b` first occurs: scanning from `i` over bytes other than `b`
/// until one equal to `b` finds exactly that position.
pub proof fn lemma_find_byte_hits(s: Seq<u8>, b: u8, i: int, j: int)
    requires
        0 <= i <= j < s.len(),
        s[j] == b,
        forall|k: int| i <= k < j ==> #[trigger] s[k] != b,
    ensures
        find_byte_from(s, b, i) == Some(j),
    decreases j - i,
{
    if i < j {
        lemma_find_byte_hits(s, b, i + 1, j);
    }
}

/// A sequence of plain ASCII bytes is valid text and decodes to those very
/// bytes read as characters.
pub proof fn lemma_ascii_bytes_decode(bs: Seq<u8>)
    requires
        forall|i: int| 0 <= i < bs.len() ==> #[trigger] bs[i] < 0x80,
    ensures
        vstd::utf8::valid_utf8(bs),
        vstd::utf8::decode_utf8(bs) == bs.map(|i: int, b: u8| b as char),
{
    let chars = bs.map(|i: int, b: u8| b as char);
    assert forall|i: int| 0 <= i < chars.len() implies '\0' <= #[trigger] chars[i] <= '\u{7f}' by {
        assert(bs[i] < 0x80);
    }
    assert(vstd::utf8::is_ascii_chars(chars));
    vstd::utf8::is_ascii_chars_encode_utf8(chars);
    assert forall|i: int| 0 <= i < chars.len() implies vstd::utf8::encode_utf8(chars)[i]
        == bs[i] by {
        assert(chars[i] as u8 == vstd::utf8::encode_utf8(chars)[i]);
        assert(bs[i] < 0x80);
    }
    assert(vstd::utf8::encode_utf8(chars) =~= bs);
    vstd::utf8::encode_utf8_valid_utf8(chars);
    vstd::utf8::encode_utf8_decode_utf8(chars);
}

/// A delimiter byte — any byte below 0x80 — cannot arise from encoding a
/// character other than its own: every byte of a multi-byte character's
/// encoding has its high bit set, and a one-byte encoding is the character
/// itself.
pub proof fn lemma_encode_utf8_excludes(s: Seq<char>, m: u8)
    requires
        m < 0x80,
        forall|i: int| 0 <= i < s.len() ==> (#[trigger] s[i]) as u32 != m as u32,
    ensures
        forall|k: int|
            0 <= k < vstd::utf8::encode_utf8(s).len() ==> #[trigger] vstd::utf8::encode_utf8(
                s,
            )[k] != m,
    decreases s.len(),
{
    broadcast use vstd::utf8::char_is_scalar;

    if s.len() > 0 {
        let v = s[0] as u32;
        let first = vstd::utf8::encode_scalar(v);
        assert forall|k: int| 0 <= k < first.len() implies #[trigger] first[k] != m by {
            if vstd::utf8::has_width_1_encoding(v) {
                assert(((v & 0x7F) as u8) as u32 == v && (v & 0x7F) as u8 != m) by (bit_vector)
                    requires
                        v < 0x80 && v != m as u32 && m < 0x80,
                ;
            } else {
                let c1: u8 = (v & 0x3F) as u8;
                let c2: u8 = ((v >> 6) & 0x3F) as u8;
                let c3: u8 = ((v >> 12) & 0x3F) as u8;
                let l2: u8 = ((v >> 6) & 0x1F) as u8;
                let l3: u8 = ((v >> 12) & 0x0F) as u8;
                let l4: u8 = ((v >> 18) & 0x7) as u8;
                assert(0x80u8 | c1 >= 0x80 && 0x80u8 | c2 >= 0x80 && 0x80u8 | c3 >= 0x80
                    && 0xC0u8 | l2 >= 0x80 && 0xE0u8 | l3 >= 0x80 && 0xF0u8 | l4 >= 0x80)
                    by (bit_vector);
            }
        }
        lemma_encode_utf8_excludes(s.drop_first(), m);
        let rest = vstd::utf8::encode_utf8(s.drop_first());
        assert forall|k: int|
            0 <= k < vstd::utf8::encode_utf8(s).len() implies #[trigger] vstd::utf8::encode_utf8(
            s,
        )[k] != m by {
            if k < first.len() {
                assert(vstd::utf8::encode_utf8(s)[k] == first[k]);
            } else {
                assert(vstd::utf8::encode_utf8(s)[k] == rest[k - first.len()]);
            }
        }
    }
}

/// The position of the first frame opener in `buf`; agrees with
/// [`find_opener_from`].
fn scan_opener(buf: &Vec<u8>) -> (r: Option<usize>)
    ensures
        match r {
            Some(j) => j < buf@.len() && is_opener(buf@[j as int]) && find_opener_from(buf@, 0)
                == Some(j as int),
            None => find_opener_from(buf@, 0) is None,
        },
{
    let mut j: usize = 0;
    while j < buf.len()
        invariant
            j <= buf@.len(),
            find_opener_from(buf@, 0) == find_opener_from(buf@, j as int),
        decreases buf@.len() - j,
    {
        let c = buf[j];
        if c == BEGIN_RESPONSE || c == BEGIN_CONFIG {
            return Some(j);
        }
        j += 1;
    }
    None
}

/// The position of the first occurrence of `b` at or after `from`; agrees
/// with [`find_byte_from`].
fn scan_byte(buf: &Vec<u8>, b: u8, from: usize) -> (r: Option<usize>)
    ensures
        match r {
            Some(j) => from <= j < buf@.len() && buf@[j as int] == b && find_byte_from(
                buf@,
                b,
                from as int,
            ) == Some(j as int),
            None => find_byte_from(buf@, b, from as int) is None,
        },
{
    let mut j: usize = from;
    while j < buf.len()
        invariant
            from <= j,
            j <= buf@.len() || j == from,
            find_byte_from(buf@, b, from as int) == find_byte_from(buf@, b, j as int),
        decreases buf@.len() - j,
    {
        if buf[j] == b {
            return Some(j);
        }
        j += 1;
    }
    None
}

/// Relies on `String::from_utf8`: yields the decoding of byte sequences that
/// are valid UTF-8 and rejects exactly those that are not.
#[verifier::external_body]
fn bytes_to_string(bytes: Vec<u8>) -> (r: Option<String>)
    ensures
        match r {
            Some(s) => vstd::utf8::valid_utf8(bytes@) && s@ == vstd::utf8::decode_utf8(bytes@),
            None => !vstd::utf8::valid_utf8(bytes@),
        },
{
    String::from_utf8(bytes).ok()
}

// ---------------------------------------------------------------------------
// Executable field handling
// ---------------------------------------------------------------------------

/// Relies on `String::from_iter` over chars: the built string holds exactly
/// the given characters.
#[verifier::external_body]
fn chars_to_string(chars: &Vec<char>) -> (r: String)
    ensures
        r@ == chars@,
{
    chars.iter().collect()
}

/// Split a frame interior into its fields and trim each; agrees with
/// [`trimmed_fields`].
fn split_and_trim(s: &str) -> (r: Vec<Vec<char>>)
    ensures
        r.deep_view() == trimmed_fields(s@),
{
    let chars = str_to_chars(s);
    let raw = split_commas_chars(&chars);
    let mut out: Vec<Vec<char>> = Vec::new();
    let mut i: usize = 0;
    while i < raw.len()
        invariant
            i <= raw@.len(),
            out@.len() == i,
            raw.deep_view() == split_commas(s@),
            forall|j: int| 0 <= j < i ==> #[trigger] out@[j]@ == spec_trim(raw@[j]@),
        decreases raw@.len() - i,
    {
        let t = trim_chars(&raw[i]);
        out.push(t);
        i += 1;
    }
    proof {
        assert forall|j: int| 0 <= j < out@.len() implies #[trigger] out.deep_view()[j]
            == trimmed_fields(s@)[j] by {
            assert(out.deep_view()[j] == out@[j]@);
            assert(raw.deep_view()[j] == raw@[j]@);
        }
        assert(out.deep_view() =~~= trimmed_fields(s@));
    }
    out
}

fn parse_u8_string(s: &String) -> (r: Option<u8>)
    ensures
        r == spec_parse_u8(s@),
{
    let chars = str_to_chars(s.as_str());
    parse_u8_chars(&chars)
}

fn parse_i16_string(s: &String) -> (r: Option<i16>)
    ensures
        r == spec_parse_i16(s@),
{
    let chars = str_to_chars(s.as_str());
    parse_i16_chars(&chars)
}

/// `Ok` exactly when `parts` holds `length` fields.
pub fn assert_length(parts: &Vec<String>, length: usize) -> (r: Result<(), ParseError>)
    ensures
        r is Ok <==> parts@.len() == length,
        r matches Err(e) ==> e == (ParseError::WrongFieldCount {
            expected: length,
            found: parts@.len() as usize,
        }),
{
    if parts.len() != length {
        Err(ParseError::WrongFieldCount { expected: length, found: parts.len() })
    } else {
        Ok(())
    }
}

impl LumenCacheCodec {
    /// Decode the first complete frame of `buf`, consuming it together with
    /// any noise before it; agrees with [`spec_decode`].  Without a complete
    /// frame the buffer stays untouched; a malformed frame is consumed and
    /// yields nothing.
    pub fn parse(buf: &mut Vec<u8>) -> (r: Option<Response>)
        ensures
            final(buf)@ == spec_decode(old(buf)@).1,
            match r {
                Some(resp) => spec_decode(old(buf)@).0 == Some(resp@),
                None => spec_decode(old(buf)@).0 is None,
            },
    {
        let ghost s = buf@;
        // Reading the length as a `usize` bounds the frame indices below.
        let _total: usize = buf.len();
        let begin = match scan_opener(buf) {
            Some(b) => b,
            None => {
                return None;
            },
        };
        let open_byte = buf[begin];
        let close = if open_byte == BEGIN_RESPONSE {
            END_RESPONSE
        } else {
            END_CONFIG
        };
        proof {
            assert(close == closer_for(s[begin as int]));
        }
        let end = match scan_byte(buf, close, begin + 1) {
            Some(e) => e,
            None => {
                return None;
            },
        };
        let structured = open_byte == BEGIN_CONFIG;
        let text = match Self::extract(buf, begin, end) {
            Some(text) => text,
            None => {
                return None;
            },
        };
        if structured {
            let trimmed = split_and_trim(text.as_str());
            let mut parts: Vec<String> = Vec::new();
            let mut k: usize = 0;
            while k < trimmed.len()
                invariant
                    k <= trimmed@.len(),
                    parts@.len() == k,
                    forall|j: int| 0 <= j < k ==> #[trigger] parts@[j]@ == trimmed@[j]@,
                decreases trimmed@.len() - k,
            {
                let st = chars_to_string(&trimmed[k]);
                parts.push(st);
                k += 1;
            }
            proof {
                assert forall|j: int| 0 <= j < parts@.len() implies #[trigger] parts.deep_view()[j]
                    == trimmed.deep_view()[j] by {
                    assert(parts@[j]@ == trimmed@[j]@);
                }
                assert(parts.deep_view() =~~= trimmed_fields(text@));
            }
            if parts.len() == 2 {
                match Self::parse_serial(parts) {
                    Ok(resp) => Some(resp),
                    Err(_) => None,
                }
            } else if parts.len() == 4 {
                match Self::parse_scene(parts) {
                    Ok(resp) => Some(resp),
                    Err(_) => None,
                }
            } else if parts.len() == 15 {
                match Self::parse_config(parts) {
                    Ok(resp) => Some(resp),
                    Err(_) => None,
                }
            } else {
                None
            }
        } else {
            match Self::parse_value(text.as_str()) {
                Ok(resp) => Some(resp),
                Err(_) => None,
            }
        }
    }

    /// Consume the frame ending at `end` from the front of `buf` and return
    /// its interior, the bytes strictly between `begin` and `end`, as text;
    /// an interior that is not valid text yields nothing, the bytes being
    /// consumed either way.
    pub fn extract(buf: &mut Vec<u8>, begin: usize, end: usize) -> (r: Option<String>)
        requires
            begin < end < old(buf)@.len(),
        ensures
            final(buf)@ == old(buf)@.skip(end + 1),
            ({
                let interior = old(buf)@.subrange(begin + 1, end as int);
                match r {
                    Some(text) => vstd::utf8::valid_utf8(interior) && text@
                        == vstd::utf8::decode_utf8(interior),
                    None => !vstd::utf8::valid_utf8(interior),
                }
            }),
    {
        // Reading the length as a `usize` bounds the indices below.
        let _total: usize = buf.len();
        let mut interior: Vec<u8> = Vec::new();
        let mut i: usize = begin + 1;
        while i < end
            invariant
                begin + 1 <= i <= end < buf@.len(),
                interior@ =~= buf@.subrange(begin + 1, i as int),
            decreases end - i,
        {
            interior.push(buf[i]);
            i += 1;
        }
        let mut rest: Vec<u8> = Vec::new();
        let mut k: usize = end + 1;
        while k < buf.len()
            invariant
                end + 1 <= k <= buf@.len(),
                rest@ =~= buf@.subrange(end + 1, k as int),
            decreases buf@.len() - k,
        {
            rest.push(buf[k]);
            k += 1;
        }
        proof {
            assert(rest@ =~= buf@.skip(end + 1));
        }
        *buf = rest;
        bytes_to_string(interior)
    }

    /// Parse a value frame's interior: exactly two numeric fields, address
    /// then value.  Errors say which requirement failed.
    pub fn parse_value(response: &str) -> (r: Result<Response, ParseError>)
        ensures
            match r {
                Ok(resp) => spec_parse_value_frame(response@) == Some(resp@),
                Err(e) => spec_parse_value_frame(response@) is None && (e is WrongFieldCount
                    <==> trimmed_fields(response@).len() != 2),
            },
    {
        let parts = split_and_trim(response);
        proof {
            assert forall|j: int| 0 <= j < parts@.len() implies #[trigger] parts.deep_view()[j]
                == parts@[j]@ by {}
        }
        if parts.len() != 2 {
            return Err(
                ParseError::WrongFieldCount { expected: 2, found: parts.len() },
            );
        }
        let id = match parse_u8_chars(&parts[0]) {
            Some(v) => v,
            None => {
                return Err(ParseError::BadField);
            },
        };
        let value = match parse_u8_chars(&parts[1]) {
            Some(v) => v,
            None => {
                return Err(ParseError::BadField);
            },
        };
        Ok(Response::Value(Value { id, value }))
    }

    /// Parse the two trimmed fields of a serial-number frame.
    pub fn parse_serial(parts: Vec<String>) -> (r: Result<Response, ParseError>)
        ensures
            match r {
                Ok(resp) => spec_parse_serial_fields(parts.deep_view()) == Some(resp@),
                Err(e) => spec_parse_serial_fields(parts.deep_view()) is None && (e
                    is WrongFieldCount <==> parts.deep_view().len() != 2),
            },
    {
        proof {
            assert forall|j: int| 0 <= j < parts@.len() implies #[trigger] parts.deep_view()[j]
                == parts@[j]@ by {}
        }
        let checked = assert_length(&parts, 2);
        if let Err(e) = checked {
            return Err(e);
        }
        let id = match parse_u8_string(&parts[0]) {
            Some(v) => v,
            None => {
                return Err(ParseError::BadField);
            },
        };
        Ok(
            Response::SerialNumber(
                SerialNumber { id, serial_number: parts[1].clone() },
            ),
        )
    }

    /// Parse the four trimmed fields of a scene frame.
    pub fn parse_scene(parts: Vec<String>) -> (r: Result<Response, ParseError>)
        ensures
            match r {
                Ok(resp) => spec_parse_scene_fields(parts.deep_view()) == Some(resp@),
                Err(e) => spec_parse_scene_fields(parts.deep_view()) is None && (e
                    is WrongFieldCount <==> parts.deep_view().len() != 4),
            },
    {
        proof {
            assert forall|j: int| 0 <= j < parts@.len() implies #[trigger] parts.deep_view()[j]
                == parts@[j]@ by {}
        }
        let checked = assert_length(&parts, 4);
        if let Err(e) = checked {
            return Err(e);
        }
        let id = match parse_u8_string(&parts[0]) {
            Some(v) => v,
            None => {
                return Err(ParseError::BadField);
            },
        };
        let scene = match parse_u8_string(&parts[1]) {
            Some(v) => v,
            None => {
                return Err(ParseError::BadField);
            },
        };
        let level = match parse_i16_string(&parts[2]) {
            Some(v) => v,
            None => {
                return Err(ParseError::BadField);
            },
        };
        let duration = match parse_i16_string(&parts[3]) {
            Some(v) => v,
            None => {
                return Err(ParseError::BadField);
            },
        };
        Ok(Response::Scene(Scene { id, scene, level, duration }))
    }

    /// Parse the fifteen trimmed fields of a configuration frame.
    pub fn parse_config(parts: Vec<String>) -> (r: Result<Response, ParseError>)
        ensures
            match r {
                Ok(resp) => spec_parse_config_fields(parts.deep_view()) == Some(resp@),
                Err(e) => spec_parse_config_fields(parts.deep_view()) is None && (e
                    is WrongFieldCount <==> parts.deep_view().len() != 15),
            },
    {
        proof {
            assert forall|j: int| 0 <= j < parts@.len() implies #[trigger] parts.deep_view()[j]
                == parts@[j]@ by {}
        }
        let checked = assert_length(&parts, 15);
        if let Err(e) = checked {
            return Err(e);
        }
        let id = match parse_u8_string(&parts[0]) {
            Some(v) => v,
            None => {
                return Err(ParseError::BadField);
            },
        };
        let hardware_type = match parse_u8_string(&parts[1]) {
            Some(v) => v,
            None => {
                return Err(ParseError::BadField);
            },
        };
        let hardware_version = match parse_u8_string(&parts[2]) {
            Some(v) => v,
            None => {
                return Err(ParseError::BadField);
            },
        };
        let mode = match parse_u8_string(&parts[5]) {
            Some(v) => v,
            None => {
                return Err(ParseError::BadField);
            },
        };
        let dimming_curve = match parse_u8_string(&parts[6]) {
            Some(v) => v,
            None => {
                return Err(ParseError::BadField);
            },
        };
        let pwm_frequency = match parse_u8_string(&parts[7]) {
            Some(v) => v,
            None => {
                return Err(ParseError::BadField);
            },
        };
        let minimum_output_pwm = match parse_u8_string(&parts[8]) {
            Some(v) => v,
            None => {
                return Err(ParseError::BadField);
            },
        };
        let maximum_output_pwm = match parse_u8_string(&parts[9]) {
            Some(v) => v,
            None => {
                return Err(ParseError::BadField);
            },
        };
        let resume_level = match parse_u8_string(&parts[10]) {
            Some(v) => v,
            None => {
                return Err(ParseError::BadField);
            },
        };
        let ramp_duration = match parse_u8_string(&parts[11]) {
            Some(v) => v,
            None => {
                return Err(ParseError::BadField);
            },
        };
        let motion_sensor_enable = match parse_u8_string(&parts[12]) {
            Some(v) => v,
            None => {
                return Err(ParseError::BadField);
            },
        };
        let mode_6_alternate_actions = match parse_u8_string(&parts[13]) {
            Some(v) => v,
            None => {
                return Err(ParseError::BadField);
            },
        };
        let inverted_output = match parse_u8_string(&parts[14]) {
            Some(v) => v,
            None => {
                return Err(ParseError::BadField);
            },
        };
        Ok(
            Response::Config(
                Config {
                    id,
                    hardware_type,
                    hardware_version,
                    firmware_version: parts[3].clone(),
                    hardware_serial_number: parts[4].clone(),
                    mode,
                    dimming_curve,
                    pwm_frequency,
                    minimum_output_pwm,
                    maximum_output_pwm,
                    resume_level,
                    ramp_duration,
                    motion_sensor_enable,
                    mode_6_alternate_actions,
                    inverted_output,
                },
            ),
        )
    }
}

} // verus!
