//! Outbound commands: the typed requests sent to the bus hardware and their
//! rendering as ASCII `[...]` frames.

use vstd::prelude::*;

use crate::protocol::codec::LumenCacheCodec;
use crate::protocol::text::{all_digits, dec_value, digit_val, is_digit_char, spec_parse_i16};

verus! {

// ---------------------------------------------------------------------------
// Command types
// ---------------------------------------------------------------------------

/// An outbound command, one variant per operation the hardware offers.
#[derive(Clone, Debug)]
pub enum Commands {
    SetValue(SetValueCommand),
    GetValue(GetValueCommand),
    SetScene(SetSceneCommand),
    ClearScene(ClearSceneCommand),
    ClearScenes(ClearScenesCommand),
    GetScenes(GetScenesCommand),
    ActivateScene(ActivateSceneCommand),
    DeactivateScene(DeactivateSceneCommand),
    GetConfig(GetConfigCommand),
    Hail,
    AssignId(AssignIdCommand),
}

#[derive(Clone, Copy, Debug)]
pub struct SetValueCommand {
    pub id: u8,
    pub value: u8,
}

#[derive(Clone, Copy, Debug)]
pub struct GetValueCommand {
    pub id: u8,
}

#[derive(Clone, Copy, Debug)]
pub struct SetSceneCommand {
    pub id: u8,
    pub scene: u8,
    pub ramp_duration: u8,
    pub level: u8,
}

#[derive(Clone, Copy, Debug)]
pub struct ClearSceneCommand {
    pub id: u8,
    pub scene: u8,
}

#[derive(Clone, Copy, Debug)]
pub struct ClearScenesCommand {
    pub id: u8,
}

#[derive(Clone, Copy, Debug)]
pub struct GetScenesCommand {
    pub id: u8,
}

#[derive(Clone, Copy, Debug)]
pub struct ActivateSceneCommand {
    pub id: u8,
}

#[derive(Clone, Copy, Debug)]
pub struct DeactivateSceneCommand {
    pub id: u8,
}

#[derive(Clone, Copy, Debug)]
pub struct GetConfigCommand {
    pub id: u8,
}

#[derive(Debug)]
pub struct AssignIdCommand {
    pub id: u8,
    pub serial_number: String,
}

impl Clone for AssignIdCommand {
    fn clone(&self) -> (r: Self)
        ensures
            r == *self,
    {
        AssignIdCommand { id: self.id, serial_number: self.serial_number.clone() }
    }
}

// ---------------------------------------------------------------------------
// Mathematical model
// ---------------------------------------------------------------------------

/// The mathematical value of an [`AssignIdCommand`].
pub struct AssignIdModel {
    pub id: u8,
    pub serial_number: Seq<char>,
}

/// The mathematical value of a command; [`crate::request::Request`] shares
/// this model, as a request is a command awaiting its response.
pub enum CommandModel {
    SetValue(SetValueCommand),
    GetValue(GetValueCommand),
    SetScene(SetSceneCommand),
    ClearScene(ClearSceneCommand),
    ClearScenes(ClearScenesCommand),
    GetScenes(GetScenesCommand),
    ActivateScene(ActivateSceneCommand),
    DeactivateScene(DeactivateSceneCommand),
    GetConfig(GetConfigCommand),
    Hail,
    AssignId(AssignIdModel),
}

impl View for AssignIdCommand {
    type V = AssignIdModel;

    open spec fn view(&self) -> AssignIdModel {
        AssignIdModel { id: self.id, serial_number: self.serial_number@ }
    }
}

impl View for Commands {
    type V = CommandModel;

    open spec fn view(&self) -> CommandModel {
        match self {
            Commands::SetValue(c) => CommandModel::SetValue(*c),
            Commands::GetValue(c) => CommandModel::GetValue(*c),
            Commands::SetScene(c) => CommandModel::SetScene(*c),
            Commands::ClearScene(c) => CommandModel::ClearScene(*c),
            Commands::ClearScenes(c) => CommandModel::ClearScenes(*c),
            Commands::GetScenes(c) => CommandModel::GetScenes(*c),
            Commands::ActivateScene(c) => CommandModel::ActivateScene(*c),
            Commands::DeactivateScene(c) => CommandModel::DeactivateScene(*c),
            Commands::GetConfig(c) => CommandModel::GetConfig(*c),
            Commands::Hail => CommandModel::Hail,
            Commands::AssignId(c) => CommandModel::AssignId(c@),
        }
    }
}

// ---------------------------------------------------------------------------
// Decimal rendering
// ---------------------------------------------------------------------------

/// The ASCII digits of `n`, most significant first, without leading zeros.
pub open spec fn dec_bytes(n: nat) -> Seq<u8>
    decreases n,
{
    if n < 10 {
        seq![(0x30 + n) as u8]
    } else {
        dec_bytes(n / 10).push((0x30 + n % 10) as u8)
    }
}

/// The ASCII digits of `n`, left-padded with zeros to at least `w` digits.
pub open spec fn dec_bytes_pad(n: nat, w: nat) -> Seq<u8> {
    if dec_bytes(n).len() >= w {
        dec_bytes(n)
    } else {
        Seq::new((w - dec_bytes(n).len()) as nat, |i: int| 0x30u8).add(dec_bytes(n))
    }
}

/// How many digits `n` has, for `n` below a thousand.
pub proof fn lemma_dec_bytes_len_small(n: nat)
    requires
        n < 1000,
    ensures
        dec_bytes(n).len() == if n < 10 {
            1int
        } else if n < 100 {
            2int
        } else {
            3int
        },
{
    if n < 10 {
    } else if n < 100 {
        assert(1 <= n / 10 < 10) by (nonlinear_arith)
            requires
                10 <= n < 100,
        ;
        assert(dec_bytes(n / 10).len() == 1);
    } else {
        assert(10 <= n / 10 < 100) by (nonlinear_arith)
            requires
                100 <= n < 1000,
        ;
        assert(1 <= n / 10 / 10 < 10) by (nonlinear_arith)
            requires
                10 <= n / 10 < 100,
        ;
        assert(dec_bytes(n / 10 / 10).len() == 1);
        assert(dec_bytes(n / 10).len() == 2);
    }
}

/// Every byte of a decimal rendering is an ASCII digit.
pub proof fn lemma_dec_bytes_digits(n: nat)
    ensures
        forall|i: int| 0 <= i < dec_bytes(n).len() ==> 0x30 <= #[trigger] dec_bytes(n)[i] <= 0x39,
    decreases n,
{
    if n < 10 {
    } else {
        lemma_dec_bytes_digits(n / 10);
        assert(dec_bytes(n) == dec_bytes(n / 10).push((0x30 + n % 10) as u8));
        assert forall|i: int| 0 <= i < dec_bytes(n).len() implies 0x30 <= #[trigger] dec_bytes(
            n,
        )[i] <= 0x39 by {
            if i < dec_bytes(n / 10).len() {
                assert(dec_bytes(n)[i] == dec_bytes(n / 10)[i]);
            } else {
                assert(dec_bytes(n)[i] == (0x30 + n % 10) as u8);
            }
        }
    }
}

/// Reading a decimal rendering back as characters yields digits worth
/// exactly the rendered number: rendering and field parsing are inverse.
pub proof fn lemma_dec_bytes_value(n: nat)
    ensures
        ({
            let c = dec_bytes(n).map(|i: int, b: u8| b as char);
            all_digits(c) && dec_value(c) == n
        }),
    decreases n,
{
    lemma_dec_bytes_digits(n);
    let c = dec_bytes(n).map(|i: int, b: u8| b as char);
    assert forall|i: int| 0 <= i < c.len() implies is_digit_char(#[trigger] c[i]) by {
        assert(0x30 <= dec_bytes(n)[i] <= 0x39);
    }
    if n < 10 {
        assert(c =~= seq![((0x30 + n) as u8) as char]);
        assert(digit_val(c[0]) == n);
        assert(dec_value(c) == dec_value(c.drop_last()) * 10 + digit_val(c.last()));
    } else {
        lemma_dec_bytes_value(n / 10);
        let cq = dec_bytes(n / 10).map(|i: int, b: u8| b as char);
        assert(c.drop_last() =~= cq);
        assert(c.last() == (((0x30 + n % 10) as u8) as char));
        assert(digit_val(c.last()) == n % 10);
        assert(dec_value(c) == (n / 10) * 10 + n % 10);
    }
}

/// The ASCII digits of `n`, read as characters.
pub open spec fn dec_chars(n: nat) -> Seq<char> {
    dec_bytes(n).map(|i: int, b: u8| b as char)
}

/// The ASCII rendering of a signed value: the digits of the magnitude,
/// behind a minus sign for negative values.
pub open spec fn dec_chars_signed(v: int) -> Seq<char> {
    if v < 0 {
        seq!['-'] + dec_chars((0 - v) as nat)
    } else {
        dec_chars(v as nat)
    }
}

/// Reading a signed rendering back as an `i16` field yields the rendered
/// value; every character of the rendering is a digit or the minus sign.
pub proof fn lemma_dec_chars_signed_value(v: i16)
    ensures
        spec_parse_i16(dec_chars_signed(v as int)) == Some(v),
        forall|i: int|
            0 <= i < dec_chars_signed(v as int).len() ==> (#[trigger] dec_chars_signed(
                v as int,
            )[i] == '-' || is_digit_char(dec_chars_signed(v as int)[i])),
{
    if v >= 0 {
        lemma_dec_bytes_value(v as nat);
        assert(dec_bytes(v as nat).len() > 0);
        let s = dec_chars(v as nat);
        assert(is_digit_char(s[0]));
    } else {
        let m = (0 - v) as nat;
        lemma_dec_bytes_value(m);
        assert(dec_bytes(m).len() > 0);
        let d = dec_chars(m);
        let s = dec_chars_signed(v as int);
        assert(s.drop_first() =~= d);
        assert(s[0] == '-');
        assert(dec_value(d) == m <= 32768);
    }
}

/// Append the digits of `n`; agrees with [`dec_bytes`].
fn push_dec(dst: &mut Vec<u8>, n: u32)
    ensures
        final(dst)@ == old(dst)@ + dec_bytes(n as nat),
    decreases n,
{
    if n < 10 {
        dst.push(0x30 + (n as u8));
        proof {
            assert(final(dst)@ =~= old(dst)@ + dec_bytes(n as nat));
        }
    } else {
        push_dec(dst, n / 10);
        dst.push(0x30 + ((n % 10) as u8));
        proof {
            assert(final(dst)@ =~= old(dst)@ + dec_bytes(n as nat));
        }
    }
}

/// Append the digits of `n`, zero-padded to at least `width` digits; agrees
/// with [`dec_bytes_pad`].
fn push_dec_pad(dst: &mut Vec<u8>, n: u8, width: u8)
    requires
        2 <= width <= 3,
    ensures
        final(dst)@ == old(dst)@ + dec_bytes_pad(n as nat, width as nat),
    decreases n,
{
    proof {
        lemma_dec_bytes_len_small(n as nat);
    }
    if width == 3 && n < 10 {
        dst.push(0x30);
        dst.push(0x30);
    } else if n < 10 || (width == 3 && n < 100) {
        dst.push(0x30);
    }
    push_dec(dst, n as u32);
    proof {
        assert(final(dst)@ =~= old(dst)@ + dec_bytes_pad(n as nat, width as nat));
    }
}

// ---------------------------------------------------------------------------
// Frame rendering
// ---------------------------------------------------------------------------

/// The exact bytes a command is sent as: an ASCII `[...]` frame whose layout
/// depends on the command.  Scene-related commands pack their operands into
/// zero-padded digit groups; scene activation and identity assignment fold
/// the address into the numeric operand instead.
pub open spec fn spec_encode(c: CommandModel) -> Seq<u8> {
    match c {
        CommandModel::SetValue(c) => seq![0x5bu8] + dec_bytes(c.id as nat) + seq![0x2cu8]
            + dec_bytes(c.value as nat) + seq![0x5du8],
        CommandModel::GetValue(c) => seq![0x5bu8] + dec_bytes(c.id as nat) + seq![0x2cu8]
            + dec_bytes(256) + seq![0x5du8],
        CommandModel::SetScene(c) => seq![0x5bu8] + dec_bytes(c.id as nat) + seq![0x2cu8, 0x31u8]
            + dec_bytes_pad(c.scene as nat, 2) + dec_bytes_pad(c.ramp_duration as nat, 3)
            + dec_bytes_pad(c.level as nat, 3) + seq![0x5du8],
        CommandModel::ClearScene(c) => seq![0x5bu8] + dec_bytes(c.id as nat)
            + seq![0x2cu8, 0x37u8] + dec_bytes_pad(c.scene as nat, 2) + seq![0x5du8],
        CommandModel::ClearScenes(c) => seq![0x5bu8] + dec_bytes(c.id as nat) + seq![0x2cu8]
            + dec_bytes(700) + seq![0x5du8],
        CommandModel::GetScenes(c) => seq![0x5bu8] + dec_bytes(c.id as nat) + seq![0x2cu8]
            + dec_bytes(10000) + seq![0x5du8],
        CommandModel::ActivateScene(c) => seq![0x5bu8] + dec_bytes(254) + seq![0x2cu8]
            + dec_bytes((600 + c.id) as nat) + seq![0x5du8],
        CommandModel::DeactivateScene(c) => seq![0x5bu8] + dec_bytes(254) + seq![0x2cu8]
            + dec_bytes((900 + c.id) as nat) + seq![0x5du8],
        CommandModel::GetConfig(c) => seq![0x5bu8] + dec_bytes(c.id as nat) + seq![0x2cu8]
            + dec_bytes(258) + seq![0x5du8],
        CommandModel::Hail => seq![0x5bu8] + dec_bytes(253) + seq![0x2cu8] + dec_bytes(0)
            + seq![0x5du8],
        CommandModel::AssignId(c) => seq![0x5bu8] + dec_bytes((100000 + c.id) as nat)
            + seq![0x2cu8] + vstd::utf8::encode_utf8(c.serial_number) + seq![0x5du8],
    }
}

impl LumenCacheCodec {
    /// Render `item` onto the end of `dst`, exactly as [`spec_encode`] says.
    #[verifier::rlimit(60)]
    pub fn encode(item: Commands, dst: &mut Vec<u8>)
        ensures
            final(dst)@ == old(dst)@ + spec_encode(item@),
    {
        dst.push(0x5b);
        match &item {
            Commands::SetValue(c) => {
                push_dec(dst, c.id as u32);
                dst.push(0x2c);
                push_dec(dst, c.value as u32);
            },
            Commands::GetValue(c) => {
                push_dec(dst, c.id as u32);
                dst.push(0x2c);
                push_dec(dst, 256);
            },
            Commands::SetScene(c) => {
                push_dec(dst, c.id as u32);
                dst.push(0x2c);
                dst.push(0x31);
                push_dec_pad(dst, c.scene, 2);
                push_dec_pad(dst, c.ramp_duration, 3);
                push_dec_pad(dst, c.level, 3);
            },
            Commands::ClearScene(c) => {
                push_dec(dst, c.id as u32);
                dst.push(0x2c);
                dst.push(0x37);
                push_dec_pad(dst, c.scene, 2);
            },
            Commands::ClearScenes(c) => {
                push_dec(dst, c.id as u32);
                dst.push(0x2c);
                push_dec(dst, 700);
            },
            Commands::GetScenes(c) => {
                push_dec(dst, c.id as u32);
                dst.push(0x2c);
                push_dec(dst, 10000);
            },
            Commands::ActivateScene(c) => {
                push_dec(dst, 254);
                dst.push(0x2c);
                push_dec(dst, 600 + (c.id as u32));
            },
            Commands::DeactivateScene(c) => {
                push_dec(dst, 254);
                dst.push(0x2c);
                push_dec(dst, 900 + (c.id as u32));
            },
            Commands::GetConfig(c) => {
                push_dec(dst, c.id as u32);
                dst.push(0x2c);
                push_dec(dst, 258);
            },
            Commands::Hail => {
                push_dec(dst, 253);
                dst.push(0x2c);
                push_dec(dst, 0);
            },
            Commands::AssignId(c) => {
                push_dec(dst, 100000 + (c.id as u32));
                dst.push(0x2c);
                let bytes = c.serial_number.as_str().as_bytes();
                let mut i: usize = 0;
                while i < bytes.len()
                    invariant
                        i <= bytes@.len(),
                        dst@ =~= old(dst)@ + seq![0x5bu8] + dec_bytes((100000 + c.id) as nat)
                            + seq![0x2cu8] + bytes@.take(i as int),
                        bytes@ == vstd::utf8::encode_utf8(c.serial_number@),
                    decreases bytes@.len() - i,
                {
                    dst.push(bytes[i]);
                    i += 1;
                }
                proof {
                    assert(bytes@.take(bytes@.len() as int) =~= bytes@);
                }
            },
        }
        dst.push(0x5d);
        proof {
            assert(final(dst)@ =~= old(dst)@ + spec_encode(item@));
        }
    }
}

} // verus!
