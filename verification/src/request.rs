//! Correlation of pending requests with inbound responses.
//!
//! The [`ResponseMatcher`] holds at most one pending request — the
//! serialization contract with the hardware — and decides, for every inbound
//! response, whether it answers that request, re-arms a multi-frame scene
//! enumeration, or is unrelated cross-talk to be ignored.

use vstd::prelude::*;

use crate::protocol::decoder::{
    closer_for, find_opener_from, is_opener, lemma_ascii_bytes_decode,
    lemma_encode_utf8_excludes, lemma_find_byte_hits, spec_decode, spec_parse_value_fields, trimmed_fields, Config, ConfigModel, Response,
    ResponseModel, Scene, Value,
};
use crate::protocol::encoder::{
    dec_bytes, dec_chars, dec_chars_signed, lemma_dec_bytes_digits, lemma_dec_bytes_value,
    lemma_dec_chars_signed_value, ActivateSceneCommand, AssignIdCommand, AssignIdModel,
    ClearSceneCommand, ClearScenesCommand, CommandModel, Commands, DeactivateSceneCommand,
    GetConfigCommand, GetScenesCommand, GetValueCommand, SetSceneCommand, SetValueCommand,
};
use crate::protocol::text::{
    all_digits, is_digit_char, is_space_char, join_commas, lemma_join_commas_preserves,
    lemma_split_commas_first_comma, lemma_split_commas_join, lemma_split_commas_no_comma,
    lemma_trim_no_space, spec_parse_i16, spec_parse_u8, spec_trim, split_commas,
};

verus! {

// ---------------------------------------------------------------------------
// Requests
// ---------------------------------------------------------------------------

/// A request awaiting its response: the command that was, or is about to be,
/// sent on the wire.
#[derive(Debug)]
pub enum Request {
    SetValue(SetValueCommand),
    GetValue(GetValueCommand),
    SetScene(SetSceneCommand),
    ClearScene(ClearSceneCommand),
    ClearScenes(ClearScenesCommand),
    GetScenes(GetScenesCommand),
    ActivateScene(ActivateSceneCommand),
    DeactivateScene(DeactivateSceneCommand),
    GetConfig(GetConfigCommand),
    Hail,
    AssignId(AssignIdCommand),
}

impl View for Request {
    type V = CommandModel;

    open spec fn view(&self) -> CommandModel {
        match self {
            Request::SetValue(c) => CommandModel::SetValue(*c),
            Request::GetValue(c) => CommandModel::GetValue(*c),
            Request::SetScene(c) => CommandModel::SetScene(*c),
            Request::ClearScene(c) => CommandModel::ClearScene(*c),
            Request::ClearScenes(c) => CommandModel::ClearScenes(*c),
            Request::GetScenes(c) => CommandModel::GetScenes(*c),
            Request::ActivateScene(c) => CommandModel::ActivateScene(*c),
            Request::DeactivateScene(c) => CommandModel::DeactivateScene(*c),
            Request::GetConfig(c) => CommandModel::GetConfig(*c),
            Request::Hail => CommandModel::Hail,
            Request::AssignId(c) => CommandModel::AssignId(c@),
        }
    }
}

impl Request {
    /// The command this request sends on the wire: the same operation,
    /// value for value.
    pub fn command(&self) -> (r: Commands)
        ensures
            r@ == self@,
    {
        match self {
            Request::SetValue(c) => Commands::SetValue(*c),
            Request::GetValue(c) => Commands::GetValue(*c),
            Request::SetScene(c) => Commands::SetScene(*c),
            Request::ClearScene(c) => Commands::ClearScene(*c),
            Request::ClearScenes(c) => Commands::ClearScenes(*c),
            Request::GetScenes(c) => Commands::GetScenes(*c),
            Request::ActivateScene(c) => Commands::ActivateScene(*c),
            Request::DeactivateScene(c) => Commands::DeactivateScene(*c),
            Request::GetConfig(c) => Commands::GetConfig(*c),
            Request::Hail => Commands::Hail,
            Request::AssignId(c) => Commands::AssignId(c.clone()),
        }
    }
}

/// What a caller's wait ends with: the typed response payload, or a timeout
/// — a distinct, non-exceptional outcome.
#[derive(Debug)]
pub enum RequestResponse<T> {
    Response(T),
    Timeout,
}

/// The payload a matched response resolves the pending request's caller
/// with.
#[derive(Debug)]
pub enum Resolution {
    /// A value report, for a value request or write.
    Value(Value),
    /// A single scene entry, for a scene write or single clear.
    Scene(Scene),
    /// The full enumerated scene list, for a scene enumeration or bulk
    /// clear.
    Scenes(Vec<Scene>),
    /// A bare acknowledgement, for scene activation or deactivation.
    Acknowledged,
    /// A configuration report, for a configuration request, a hail or an
    /// address assignment.
    Config(Config),
}

/// The mathematical value of a [`Resolution`].
pub enum ResolutionModel {
    Value(Value),
    Scene(Scene),
    Scenes(Seq<Scene>),
    Acknowledged,
    Config(crate::protocol::decoder::ConfigModel),
}

impl View for Resolution {
    type V = ResolutionModel;

    open spec fn view(&self) -> ResolutionModel {
        match self {
            Resolution::Value(v) => ResolutionModel::Value(*v),
            Resolution::Scene(s) => ResolutionModel::Scene(*s),
            Resolution::Scenes(v) => ResolutionModel::Scenes(v@),
            Resolution::Acknowledged => ResolutionModel::Acknowledged,
            Resolution::Config(c) => ResolutionModel::Config(c@),
        }
    }
}

// ---------------------------------------------------------------------------
// The correlation table
// ---------------------------------------------------------------------------

/// Whether `resp` belongs to the exchange opened by `req`.
///
/// Value reports answer value requests by address; scene reports answer
/// scene writes by address and scene index, and scene enumerations by
/// address alone; scene activation accepts any value report, as the hardware
/// echoes a generic acknowledgement; configuration reports answer
/// configuration requests and assignments by address, and a hail — the
/// announcement of an unassigned device — from any address.
pub open spec fn matches_response(req: CommandModel, resp: ResponseModel) -> bool {
    match (req, resp) {
        (CommandModel::SetValue(c), ResponseModel::Value(v)) => c.id == v.id,
        (CommandModel::GetValue(c), ResponseModel::Value(v)) => c.id == v.id,
        (CommandModel::SetScene(c), ResponseModel::Scene(s)) => c.id == s.id && c.scene
            == s.scene,
        (CommandModel::ClearScene(c), ResponseModel::Scene(s)) => c.id == s.id && c.scene
            == s.scene,
        (CommandModel::ClearScenes(c), ResponseModel::Scene(s)) => c.id == s.id,
        (CommandModel::GetScenes(c), ResponseModel::Scene(s)) => c.id == s.id,
        (CommandModel::ActivateScene(_), ResponseModel::Value(_)) => true,
        (CommandModel::DeactivateScene(_), ResponseModel::Value(_)) => true,
        (CommandModel::GetConfig(c), ResponseModel::Config(k)) => c.id == k.id,
        (CommandModel::Hail, ResponseModel::Config(_)) => true,
        (CommandModel::AssignId(c), ResponseModel::Config(k)) => c.id == k.id,
        _ => false,
    }
}

/// Whether `req` collects a multi-frame scene list rather than a single
/// response.
pub open spec fn is_scene_list_request(req: CommandModel) -> bool {
    req is ClearScenes || req is GetScenes
}

/// The payload a definitive (single-frame) match resolves the caller with.
pub open spec fn resolution_of(req: CommandModel, resp: ResponseModel) -> ResolutionModel
    recommends
        matches_response(req, resp),
        !is_scene_list_request(req),
{
    match (req, resp) {
        (CommandModel::SetValue(_), ResponseModel::Value(v)) => ResolutionModel::Value(v),
        (CommandModel::GetValue(_), ResponseModel::Value(v)) => ResolutionModel::Value(v),
        (CommandModel::SetScene(_), ResponseModel::Scene(s)) => ResolutionModel::Scene(s),
        (CommandModel::ClearScene(_), ResponseModel::Scene(s)) => ResolutionModel::Scene(s),
        (CommandModel::ActivateScene(_), _) => ResolutionModel::Acknowledged,
        (CommandModel::DeactivateScene(_), _) => ResolutionModel::Acknowledged,
        (CommandModel::GetConfig(_), ResponseModel::Config(k)) => ResolutionModel::Config(k),
        (CommandModel::Hail, ResponseModel::Config(k)) => ResolutionModel::Config(k),
        (CommandModel::AssignId(_), ResponseModel::Config(k)) => ResolutionModel::Config(k),
        _ => arbitrary(),
    }
}

/// The address a scene-list request enumerates.
pub open spec fn scene_list_id(req: CommandModel) -> u8
    recommends
        is_scene_list_request(req),
{
    match req {
        CommandModel::ClearScenes(c) => c.id,
        CommandModel::GetScenes(c) => c.id,
        _ => arbitrary(),
    }
}

/// The matcher's mathematical state: the pending request, if any, and the
/// scene entries accumulated so far.
pub struct MatcherModel {
    pub request: Option<CommandModel>,
    pub scenes: Seq<Scene>,
}

/// One matcher transition: what feeding `resp` does to the state, and what
/// it resolves the pending caller with, if anything.
///
/// Without a pending request the response is ignored.  A response that does
/// not belong to the pending exchange leaves everything untouched.  A
/// definitive match resolves the caller and clears the pending slot.  In a
/// scene-list exchange, index 1 restarts the accumulator with that entry and
/// re-arms the request as a scene enumeration, index 64 drains the
/// accumulator into the caller's result, and any other index appends and
/// re-arms the request unchanged.
pub open spec fn matcher_step(m: MatcherModel, resp: ResponseModel) -> (MatcherModel, Option<
    ResolutionModel,
>) {
    match m.request {
        None => (m, None),
        Some(req) => {
            if !matches_response(req, resp) {
                (m, None)
            } else if is_scene_list_request(req) {
                match resp {
                    ResponseModel::Scene(s) => {
                        if s.scene == 1 {
                            (
                                MatcherModel {
                                    request: Some(
                                        CommandModel::GetScenes(
                                            GetScenesCommand { id: scene_list_id(req) },
                                        ),
                                    ),
                                    scenes: seq![s],
                                },
                                None,
                            )
                        } else if s.scene == 64 {
                            (
                                MatcherModel { request: None, scenes: Seq::empty() },
                                Some(ResolutionModel::Scenes(m.scenes)),
                            )
                        } else {
                            (
                                MatcherModel { request: Some(req), scenes: m.scenes.push(s) },
                                None,
                            )
                        }
                    },
                    _ => (m, None),
                }
            } else {
                (
                    MatcherModel { request: None, scenes: m.scenes },
                    Some(resolution_of(req, resp)),
                )
            }
        },
    }
}

// ---------------------------------------------------------------------------
// Laws of the correlation table
// ---------------------------------------------------------------------------

/// The matcher state after feeding a sequence of scene frames, in order.
pub open spec fn matcher_run_scenes(m: MatcherModel, frames: Seq<Scene>) -> MatcherModel
    decreases frames.len(),
{
    if frames.len() == 0 {
        m
    } else {
        matcher_run_scenes(
            matcher_step(m, ResponseModel::Scene(frames[0])).0,
            frames.drop_first(),
        )
    }
}

/// Scene frames with middle indices from the enumerated address only append
/// to the accumulator and keep the exchange armed.
proof fn lemma_scene_accumulation(m: MatcherModel, id: u8, frames: Seq<Scene>)
    requires
        m.request == Some(CommandModel::GetScenes(GetScenesCommand { id })),
        forall|i: int|
            0 <= i < frames.len() ==> (#[trigger] frames[i]).id == id && 2 <= frames[i].scene
                <= 63,
    ensures
        matcher_run_scenes(m, frames) == (MatcherModel {
            request: m.request,
            scenes: m.scenes + frames,
        }),
    decreases frames.len(),
{
    if frames.len() == 0 {
        assert(m.scenes + frames =~= m.scenes);
        assert(matcher_run_scenes(m, frames) == m);
    } else {
        let s = frames[0];
        let m1 = matcher_step(m, ResponseModel::Scene(s)).0;
        lemma_scene_accumulation(m1, id, frames.drop_first());
        assert(m.scenes.push(s) + frames.drop_first() =~= m.scenes + frames);
    }
}

/// Law (scene aggregation): a scene-list exchange whose frames carry the
/// starting index 1, then any middle indices, then the terminal index 64,
/// resolves the caller with exactly the non-terminal entries, in arrival
/// order — the terminal frame itself is excluded — and leaves no request
/// pending and the accumulator empty.
pub proof fn lemma_scene_aggregation(
    m: MatcherModel,
    id: u8,
    first: Scene,
    middles: Seq<Scene>,
    terminal: Scene,
)
    requires
        m.request matches Some(req) && is_scene_list_request(req) && scene_list_id(req) == id,
        first.id == id && first.scene == 1,
        forall|i: int|
            0 <= i < middles.len() ==> (#[trigger] middles[i]).id == id && 2 <= middles[i].scene
                <= 63,
        terminal.id == id && terminal.scene == 64,
    ensures
        ({
            let started = matcher_step(m, ResponseModel::Scene(first)).0;
            let filled = matcher_run_scenes(started, middles);
            let finished = matcher_step(filled, ResponseModel::Scene(terminal));
            &&& finished.1 == Some(ResolutionModel::Scenes(seq![first] + middles))
            &&& finished.0.request is None
            &&& finished.0.scenes == Seq::<Scene>::empty()
        }),
{
    let started = matcher_step(m, ResponseModel::Scene(first)).0;
    assert(started.request == Some(CommandModel::GetScenes(GetScenesCommand { id })));
    assert(started.scenes =~= seq![first]);
    lemma_scene_accumulation(started, id, middles);
}

/// The value frame a hardware module echoes for address `id` and output
/// `value`: the two numbers between `(` and `)`.
pub open spec fn value_echo_frame(id: u8, value: u8) -> Seq<u8> {
    seq![0x28u8] + dec_bytes(id as nat) + seq![0x2cu8] + dec_bytes(value as nat) + seq![0x29u8]
}

/// Digits are not whitespace and not separators.
proof fn lemma_digit_chars_plain(c: Seq<char>)
    requires
        all_digits(c),
    ensures
        forall|i: int| 0 <= i < c.len() ==> !is_space_char(#[trigger] c[i]),
        forall|i: int| 0 <= i < c.len() ==> #[trigger] c[i] != ',',
        forall|i: int| 0 <= i < c.len() ==> #[trigger] c[i] != '+',
{
    assert forall|i: int| 0 <= i < c.len() implies !is_space_char(#[trigger] c[i]) && c[i] != ','
        && c[i] != '+' by {
        assert(is_digit_char(c[i]));
    }
}

/// Law (round trip): the value frame echoed for a value command decodes,
/// whole, to exactly the report that carries the command's correlation key
/// — the address — and its value; the correlation table then matches that
/// report to the value request that sent the command.
pub proof fn lemma_value_echo_round_trip(id: u8, value: u8)
    ensures
        spec_decode(value_echo_frame(id, value)).0 == Some(
            ResponseModel::Value(Value { id, value }),
        ),
        spec_decode(value_echo_frame(id, value)).1 == Seq::<u8>::empty(),
        matches_response(
            CommandModel::SetValue(SetValueCommand { id, value }),
            ResponseModel::Value(Value { id, value }),
        ),
        matches_response(
            CommandModel::GetValue(GetValueCommand { id }),
            ResponseModel::Value(Value { id, value }),
        ),
        forall|c: ActivateSceneCommand| #[trigger] matches_response(
            CommandModel::ActivateScene(c),
            ResponseModel::Value(Value { id, value }),
        ),
        forall|c: DeactivateSceneCommand| #[trigger] matches_response(
            CommandModel::DeactivateScene(c),
            ResponseModel::Value(Value { id, value }),
        ),
{
    let da = dec_bytes(id as nat);
    let dv = dec_bytes(value as nat);
    let interior = da + seq![0x2cu8] + dv;
    let frame = value_echo_frame(id, value);
    let n = frame.len() as int;
    let p = da.len() as int;
    lemma_dec_bytes_digits(id as nat);
    lemma_dec_bytes_digits(value as nat);
    assert(frame =~= seq![0x28u8] + interior + seq![0x29u8]);
    assert(interior.len() == n - 2);

    // Every interior byte is a digit or the comma: plain ASCII, no closer.
    assert forall|i: int| 0 <= i < interior.len() implies #[trigger] interior[i] < 0x80
        && interior[i] != 0x29 by {
        if i < p {
            assert(interior[i] == da[i]);
        } else if i == p {
            assert(interior[i] == 0x2c);
        } else {
            assert(interior[i] == dv[i - p - 1]);
        }
    }

    // The frame scans as one complete value frame: opener first, closer last.
    assert(frame[0] == 0x28 && is_opener(frame[0]));
    assert(find_opener_from(frame, 0) == Some(0int));
    assert(closer_for(frame[0]) == 0x29);
    assert(frame[n - 1] == 0x29);
    assert forall|k: int| 1 <= k < n - 1 implies #[trigger] frame[k] != 0x29 by {
        assert(frame[k] == interior[k - 1]);
    }
    lemma_find_byte_hits(frame, 0x29, 1, n - 1);
    assert(frame.subrange(1, n - 1) =~= interior);
    assert(frame.skip(n) =~= Seq::<u8>::empty());

    // The interior is plain text: the digits and the comma, as characters.
    lemma_ascii_bytes_decode(interior);
    let chars = interior.map(|i: int, b: u8| b as char);
    let ca = da.map(|i: int, b: u8| b as char);
    let cv = dv.map(|i: int, b: u8| b as char);
    lemma_dec_bytes_value(id as nat);
    lemma_dec_bytes_value(value as nat);
    lemma_digit_chars_plain(ca);
    lemma_digit_chars_plain(cv);
    assert(chars.len() == n - 2);
    assert forall|i: int| 0 <= i < chars.len() implies #[trigger] chars[i] == (if i < p {
        ca[i]
    } else if i == p {
        ','
    } else {
        cv[i - p - 1]
    }) by {
        if i < p {
            assert(interior[i] == da[i]);
        } else if i == p {
            assert(interior[i] == 0x2c);
        } else {
            assert(interior[i] == dv[i - p - 1]);
        }
    }

    // Splitting on the one comma gives the two digit fields.
    assert(chars[p] == ',');
    lemma_split_commas_first_comma(chars, p);
    assert(chars.take(p) =~= ca);
    let rest = chars.skip(p + 1);
    assert(rest =~= cv);
    lemma_split_commas_no_comma(rest);
    assert(split_commas(chars) =~~= seq![ca, cv]);

    // Digit fields trim to themselves and parse back to the numbers.
    lemma_trim_no_space(ca);
    lemma_trim_no_space(cv);
    assert(trimmed_fields(chars) =~~= seq![ca, cv]);
    assert(spec_parse_u8(ca) == Some(id));
    assert(spec_parse_u8(cv) == Some(value));
    assert(spec_parse_value_fields(trimmed_fields(chars)) == Some(
        ResponseModel::Value(Value { id, value }),
    ));
}

/// The fields of the scene frame a hardware module echoes for a scene
/// operation: address, scene index, then the stored level and duration,
/// which are the hardware's to choose and may be negative.
pub open spec fn scene_echo_fields(id: u8, scene: u8, level: i16, duration: i16) -> Seq<
    Seq<char>,
> {
    seq![
        dec_chars(id as nat),
        dec_chars(scene as nat),
        dec_chars_signed(level as int),
        dec_chars_signed(duration as int),
    ]
}

/// The scene frame a hardware module echoes for a scene operation: the
/// four numbers, comma-separated, between `{` and `}`.
pub open spec fn scene_echo_frame(id: u8, scene: u8, level: i16, duration: i16) -> Seq<u8> {
    seq![0x7bu8] + join_commas(scene_echo_fields(id, scene, level, duration)).map(
        |i: int, ch: char| ch as u8,
    ) + seq![0x7du8]
}

/// Law (round trip): the scene frame echoed for a scene operation — any
/// address, scene index, level and duration, negative values included —
/// decodes, whole, to the scene report carrying the operation's
/// correlation key, address and scene index; the correlation table then
/// matches that report to scene writes and clears on that key, and to
/// scene enumerations of the address.
#[verifier::rlimit(100)]
pub proof fn lemma_scene_echo_round_trip(id: u8, scene: u8, level: i16, duration: i16)
    ensures
        spec_decode(scene_echo_frame(id, scene, level, duration)).0 == Some(
            ResponseModel::Scene(Scene { id, scene, level, duration }),
        ),
        spec_decode(scene_echo_frame(id, scene, level, duration)).1 == Seq::<u8>::empty(),
        forall|c: SetSceneCommand|
            c.id == id && c.scene == scene ==> #[trigger] matches_response(
                CommandModel::SetScene(c),
                ResponseModel::Scene(Scene { id, scene, level, duration }),
            ),
        matches_response(
            CommandModel::ClearScene(ClearSceneCommand { id, scene }),
            ResponseModel::Scene(Scene { id, scene, level, duration }),
        ),
        matches_response(
            CommandModel::ClearScenes(ClearScenesCommand { id }),
            ResponseModel::Scene(Scene { id, scene, level, duration }),
        ),
        matches_response(
            CommandModel::GetScenes(GetScenesCommand { id }),
            ResponseModel::Scene(Scene { id, scene, level, duration }),
        ),
{
    let fields = scene_echo_fields(id, scene, level, duration);
    lemma_dec_bytes_value(id as nat);
    lemma_dec_bytes_value(scene as nat);
    lemma_dec_chars_signed_value(level);
    lemma_dec_chars_signed_value(duration);

    // Every character of every field is a digit or the minus sign.
    let plain = |ch: char| ('0' <= ch <= '9' || ch == '-');
    assert forall|i: int, j: int|
        0 <= i < fields.len() && 0 <= j < fields[i].len() implies plain(
        #[trigger] fields[i][j],
    ) by {
        if i == 0 || i == 1 {
            assert(all_digits(fields[i]));
            assert(is_digit_char(fields[i][j]));
        }
    }

    // Joining and splitting the fields are inverse.
    let joined = join_commas(fields);
    assert forall|i: int, j: int|
        0 <= i < fields.len() && 0 <= j < fields[i].len() implies #[trigger] fields[i][j]
        != ',' by {
        assert(plain(fields[i][j]));
    }
    lemma_split_commas_join(fields);
    let joined_ok = |ch: char| ('0' <= ch <= '9' || ch == '-' || ch == ',');
    lemma_join_commas_preserves(fields, joined_ok);

    // The interior, as bytes, is plain ASCII without the closer.
    let interior = joined.map(|i: int, ch: char| ch as u8);
    let frame = scene_echo_frame(id, scene, level, duration);
    let n = frame.len() as int;
    assert(frame =~= seq![0x7bu8] + interior + seq![0x7du8]);
    assert forall|i: int| 0 <= i < interior.len() implies #[trigger] interior[i] < 0x80
        && interior[i] != 0x7d by {
        assert(joined_ok(joined[i]));
        assert(interior[i] == joined[i] as u8);
    }

    // The frame scans as one complete structured frame.
    assert(frame[0] == 0x7b && is_opener(frame[0]));
    assert(find_opener_from(frame, 0) == Some(0int));
    assert(closer_for(frame[0]) == 0x7d);
    assert(frame[n - 1] == 0x7d);
    assert forall|k: int| 1 <= k < n - 1 implies #[trigger] frame[k] != 0x7d by {
        assert(frame[k] == interior[k - 1]);
    }
    lemma_find_byte_hits(frame, 0x7d, 1, n - 1);
    assert(frame.subrange(1, n - 1) =~= interior);
    assert(frame.skip(n) =~= Seq::<u8>::empty());

    // Decoding the bytes gives the joined characters back.
    lemma_ascii_bytes_decode(interior);
    let chars = interior.map(|i: int, b: u8| b as char);
    assert forall|i: int| 0 <= i < chars.len() implies #[trigger] chars[i] == joined[i] by {
        assert(joined_ok(joined[i]));
        assert(interior[i] == joined[i] as u8);
    }
    assert(chars =~= joined);

    // Each field trims to itself and parses back to its number.
    assert forall|i: int| 0 <= i < fields.len() implies #[trigger] spec_trim(fields[i])
        == fields[i] by {
        assert forall|j: int| 0 <= j < fields[i].len() implies !is_space_char(
            #[trigger] fields[i][j],
        ) by {
            assert(plain(fields[i][j]));
        }
        lemma_trim_no_space(fields[i]);
    }
    assert(trimmed_fields(chars) =~~= fields);
    assert(spec_parse_u8(fields[0]) == Some(id));
    assert(spec_parse_u8(fields[1]) == Some(scene));
    assert(spec_parse_i16(fields[2]) == Some(level));
    assert(spec_parse_i16(fields[3]) == Some(duration));
}


/// What the wire forces of a field carried verbatim between the braces of
/// a structured frame: no comma — it would raise the field count — no
/// closing brace — it would end the frame early — and no surrounding
/// whitespace — it would be trimmed away.  Any other text, non-ASCII
/// included, travels unchanged.
pub open spec fn wire_field(s: Seq<char>) -> bool {
    &&& forall|i: int| 0 <= i < s.len() ==> #[trigger] s[i] != ',' && s[i] != '}'
    &&& spec_trim(s) == s
}

/// The fields of the configuration frame a module echoes: its full report
/// in order, numbers rendered in decimal, the firmware version and serial
/// number verbatim.
pub open spec fn config_echo_fields(c: ConfigModel) -> Seq<Seq<char>> {
    seq![
        dec_chars(c.id as nat),
        dec_chars(c.hardware_type as nat),
        dec_chars(c.hardware_version as nat),
        c.firmware_version,
        c.hardware_serial_number,
        dec_chars(c.mode as nat),
        dec_chars(c.dimming_curve as nat),
        dec_chars(c.pwm_frequency as nat),
        dec_chars(c.minimum_output_pwm as nat),
        dec_chars(c.maximum_output_pwm as nat),
        dec_chars(c.resume_level as nat),
        dec_chars(c.ramp_duration as nat),
        dec_chars(c.motion_sensor_enable as nat),
        dec_chars(c.mode_6_alternate_actions as nat),
        dec_chars(c.inverted_output as nat),
    ]
}

/// The configuration frame a module echoes for the report `c`: its fifteen
/// fields, comma-separated and encoded as UTF-8, between `{` and `}`.
pub open spec fn config_echo_frame(c: ConfigModel) -> Seq<u8> {
    seq![0x7bu8] + vstd::utf8::encode_utf8(join_commas(config_echo_fields(c))) + seq![0x7du8]
}

/// Law (round trip): the configuration frame echoed for a report — its
/// text fields holding anything the wire can carry, see [`wire_field`] —
/// decodes, whole, back to that very report; the correlation table then
/// matches it to a configuration request or assignment of the report's
/// address, and to a hail from any address.
#[verifier::rlimit(100)]
pub proof fn lemma_config_echo_round_trip(c: ConfigModel)
    requires
        wire_field(c.firmware_version),
        wire_field(c.hardware_serial_number),
    ensures
        spec_decode(config_echo_frame(c)).0 == Some(ResponseModel::Config(c)),
        spec_decode(config_echo_frame(c)).1 == Seq::<u8>::empty(),
        matches_response(
            CommandModel::GetConfig(GetConfigCommand { id: c.id }),
            ResponseModel::Config(c),
        ),
        matches_response(CommandModel::Hail, ResponseModel::Config(c)),
        forall|a: AssignIdModel|
            a.id == c.id ==> #[trigger] matches_response(
                CommandModel::AssignId(a),
                ResponseModel::Config(c),
            ),
{
    let fields = config_echo_fields(c);
    lemma_dec_bytes_value(c.id as nat);
    lemma_dec_bytes_value(c.hardware_type as nat);
    lemma_dec_bytes_value(c.hardware_version as nat);
    lemma_dec_bytes_value(c.mode as nat);
    lemma_dec_bytes_value(c.dimming_curve as nat);
    lemma_dec_bytes_value(c.pwm_frequency as nat);
    lemma_dec_bytes_value(c.minimum_output_pwm as nat);
    lemma_dec_bytes_value(c.maximum_output_pwm as nat);
    lemma_dec_bytes_value(c.resume_level as nat);
    lemma_dec_bytes_value(c.ramp_duration as nat);
    lemma_dec_bytes_value(c.motion_sensor_enable as nat);
    lemma_dec_bytes_value(c.mode_6_alternate_actions as nat);
    lemma_dec_bytes_value(c.inverted_output as nat);

    // No character of any field is a comma or the closer.
    let ok = |ch: char| ch != ',' && ch != '}';
    assert forall|i: int, j: int|
        0 <= i < fields.len() && 0 <= j < fields[i].len() implies ok(#[trigger] fields[i][j]) by {
        if i == 3 || i == 4 {
        } else {
            assert(all_digits(fields[i]));
            assert(is_digit_char(fields[i][j]));
        }
    }

    // Joining and splitting the fields are inverse.
    let joined = join_commas(fields);
    assert forall|i: int, j: int|
        0 <= i < fields.len() && 0 <= j < fields[i].len() implies #[trigger] fields[i][j]
        != ',' by {
        assert(ok(fields[i][j]));
    }
    lemma_split_commas_join(fields);
    let no_closer = |ch: char| ch != '}';
    lemma_join_commas_preserves(fields, no_closer);

    // The interior is the text's encoding, and the closer byte cannot
    // arise from encoding any of its characters.
    let interior = vstd::utf8::encode_utf8(joined);
    let frame = config_echo_frame(c);
    let n = frame.len() as int;
    assert(frame =~= seq![0x7bu8] + interior + seq![0x7du8]);
    assert forall|i: int| 0 <= i < joined.len() implies (#[trigger] joined[i]) as u32
        != 0x7d by {
        assert(no_closer(joined[i]));
        vstd::utf8::char_u32_cast(joined[i], joined[i] as u32);
    }
    lemma_encode_utf8_excludes(joined, 0x7d);

    // The frame scans as one complete structured frame.
    assert(frame[0] == 0x7b && is_opener(frame[0]));
    assert(find_opener_from(frame, 0) == Some(0int));
    assert(closer_for(frame[0]) == 0x7d);
    assert(frame[n - 1] == 0x7d);
    assert forall|k: int| 1 <= k < n - 1 implies #[trigger] frame[k] != 0x7d by {
        assert(frame[k] == interior[k - 1]);
    }
    lemma_find_byte_hits(frame, 0x7d, 1, n - 1);
    assert(frame.subrange(1, n - 1) =~= interior);
    assert(frame.skip(n) =~= Seq::<u8>::empty());

    // Decoding the interior gives the joined text back.
    vstd::utf8::encode_utf8_valid_utf8(joined);
    vstd::utf8::encode_utf8_decode_utf8(joined);

    // Each field trims to itself.
    assert forall|i: int| 0 <= i < fields.len() implies #[trigger] spec_trim(fields[i])
        == fields[i] by {
        if i == 3 || i == 4 {
        } else {
            assert forall|j: int| 0 <= j < fields[i].len() implies !is_space_char(
                #[trigger] fields[i][j],
            ) by {
                assert(is_digit_char(fields[i][j]));
            }
            lemma_trim_no_space(fields[i]);
        }
    }
    assert(trimmed_fields(joined) =~~= fields);

    // The fifteen fields parse back to the report.
    assert(spec_parse_u8(fields[0]) == Some(c.id));
    assert(spec_parse_u8(fields[1]) == Some(c.hardware_type));
    assert(spec_parse_u8(fields[2]) == Some(c.hardware_version));
    assert(spec_parse_u8(fields[5]) == Some(c.mode));
    assert(spec_parse_u8(fields[6]) == Some(c.dimming_curve));
    assert(spec_parse_u8(fields[7]) == Some(c.pwm_frequency));
    assert(spec_parse_u8(fields[8]) == Some(c.minimum_output_pwm));
    assert(spec_parse_u8(fields[9]) == Some(c.maximum_output_pwm));
    assert(spec_parse_u8(fields[10]) == Some(c.resume_level));
    assert(spec_parse_u8(fields[11]) == Some(c.ramp_duration));
    assert(spec_parse_u8(fields[12]) == Some(c.motion_sensor_enable));
    assert(spec_parse_u8(fields[13]) == Some(c.mode_6_alternate_actions));
    assert(spec_parse_u8(fields[14]) == Some(c.inverted_output));
}

// ---------------------------------------------------------------------------
// The matcher
// ---------------------------------------------------------------------------

/// The one-slot state machine correlating the single pending request with
/// inbound responses.  At most one request is pending at a time.
pub struct ResponseMatcher {
    request: Option<Request>,
    scenes: Vec<Scene>,
}

impl View for ResponseMatcher {
    type V = MatcherModel;

    closed spec fn view(&self) -> MatcherModel {
        MatcherModel {
            request: match self.request {
                Some(r) => Some(r@),
                None => None,
            },
            scenes: self.scenes@,
        }
    }
}

impl ResponseMatcher {
    /// A matcher with no pending request and an empty accumulator.
    pub fn new() -> (r: Self)
        ensures
            r@.request is None,
            r@.scenes == Seq::<Scene>::empty(),
    {
        ResponseMatcher { request: None, scenes: Vec::new() }
    }

    /// Arm the matcher with `request` as the one pending request.  The slot
    /// is expected to be empty; a still-pending request is replaced, its
    /// caller left to its timeout.
    pub fn wait_for_response_to(&mut self, request: Request)
        ensures
            final(self)@.request == Some(request@),
            final(self)@.scenes == old(self)@.scenes,
    {
        self.request = Some(request);
    }

    /// Feed one inbound response through the matcher, as [`matcher_step`]
    /// says: the returned payload, if any, resolves the pending caller.
    pub fn handle_response(&mut self, response: &Response) -> (r: Option<Resolution>)
        ensures
            final(self)@ == matcher_step(old(self)@, response@).0,
            (r is Some <==> matcher_step(old(self)@, response@).1 is Some),
            r matches Some(res) ==> matcher_step(old(self)@, response@).1 == Some(res@),
    {
        let pending = self.request.take();
        match pending {
            None => None,
            Some(request) => self.handle_request(request, response),
        }
    }

    /// Decide what `response` means for the taken-out pending `request`:
    /// resolve, re-arm, or restore it untouched.
    fn handle_request(&mut self, request: Request, response: &Response) -> (r: Option<Resolution>)
        requires
            old(self)@.request is None,
        ensures
            ({
                let before = MatcherModel {
                    request: Some(request@),
                    scenes: old(self)@.scenes,
                };
                &&& final(self)@ == matcher_step(before, response@).0
                &&& (r is Some <==> matcher_step(before, response@).1 is Some)
                &&& (r matches Some(res) ==> matcher_step(before, response@).1 == Some(res@))
            }),
    {
        match (&request, response) {
            (Request::SetValue(c), Response::Value(v)) => {
                if c.id == v.id {
                    return Some(Resolution::Value(*v));
                }
            },
            (Request::GetValue(c), Response::Value(v)) => {
                if c.id == v.id {
                    return Some(Resolution::Value(*v));
                }
            },
            (Request::SetScene(c), Response::Scene(s)) => {
                if c.id == s.id && c.scene == s.scene {
                    return Some(Resolution::Scene(*s));
                }
            },
            (Request::ClearScene(c), Response::Scene(s)) => {
                if c.id == s.id && c.scene == s.scene {
                    return Some(Resolution::Scene(*s));
                }
            },
            (Request::ClearScenes(c), Response::Scene(s)) => {
                if c.id == s.id {
                    let id = c.id;
                    let entry = *s;
                    return self.accumulate_scene(request, id, entry);
                }
            },
            (Request::GetScenes(c), Response::Scene(s)) => {
                if c.id == s.id {
                    let id = c.id;
                    let entry = *s;
                    return self.accumulate_scene(request, id, entry);
                }
            },
            (Request::ActivateScene(_), Response::Value(_)) => {
                return Some(Resolution::Acknowledged);
            },
            (Request::DeactivateScene(_), Response::Value(_)) => {
                return Some(Resolution::Acknowledged);
            },
            (Request::GetConfig(c), Response::Config(k)) => {
                if c.id == k.id {
                    return Some(Resolution::Config(k.clone()));
                }
            },
            (Request::Hail, Response::Config(k)) => {
                return Some(Resolution::Config(k.clone()));
            },
            (Request::AssignId(c), Response::Config(k)) => {
                if c.id == k.id {
                    return Some(Resolution::Config(k.clone()));
                }
            },
            _ => {},
        }
        self.request = Some(request);
        None
    }

    /// One step of a scene-list exchange: restart the accumulator on index 1
    /// and re-arm as a scene enumeration, drain the accumulator on the
    /// terminal index 64, append and re-arm the request unchanged otherwise.
    fn accumulate_scene(&mut self, request: Request, id: u8, s: Scene) -> (r: Option<Resolution>)
        requires
            old(self)@.request is None,
            is_scene_list_request(request@),
            scene_list_id(request@) == id,
        ensures
            s.scene == 1 ==> final(self)@ == (MatcherModel {
                request: Some(CommandModel::GetScenes(GetScenesCommand { id })),
                scenes: seq![s],
            }) && r is None,
            s.scene == 64 ==> final(self)@ == (MatcherModel {
                request: None,
                scenes: Seq::empty(),
            }) && (r matches Some(res) && res@ == ResolutionModel::Scenes(old(self)@.scenes)),
            s.scene != 1 && s.scene != 64 ==> final(self)@ == (MatcherModel {
                request: Some(request@),
                scenes: old(self)@.scenes.push(s),
            }) && r is None,
    {
        if s.scene == 1 {
            self.scenes.clear();
            self.scenes.push(s);
            self.request = Some(Request::GetScenes(GetScenesCommand { id }));
            None
        } else if s.scene == 64 {
            let mut drained: Vec<Scene> = Vec::new();
            core::mem::swap(&mut drained, &mut self.scenes);
            Some(Resolution::Scenes(drained))
        } else {
            self.scenes.push(s);
            self.request = Some(request);
            None
        }
    }

    /// Give the pending request up: clear the slot, leaving the accumulator
    /// as it is, and say whether a caller is owed a timeout.
    pub fn timeout(&mut self) -> (r: bool)
        ensures
            final(self)@.request is None,
            final(self)@.scenes == old(self)@.scenes,
            r == (old(self)@.request is Some),
    {
        let pending = self.request.take();
        pending.is_some()
    }
}

} // verus!
