//! Field syntax of the wire protocol: comma-separated fields, whitespace
//! trimming, and decimal numbers.  Each operation has a mathematical
//! specification over `Seq<char>` and a verified executable counterpart.

use vstd::prelude::*;
use vstd::std_specs::iter::IteratorSpec;

verus! {

// ---------------------------------------------------------------------------
// Character classes
// ---------------------------------------------------------------------------

/// The characters stripped from both ends of a field (the Unicode
/// `White_Space` set, as `str::trim` uses).
pub open spec fn is_space_char(c: char) -> bool {
    c == ' ' || c == '\t' || c == '\n' || c == '\r' || c == '\u{b}' || c == '\u{c}'
        || c == '\u{85}' || c == '\u{a0}' || c == '\u{1680}' || c == '\u{2000}'
        || c == '\u{2001}' || c == '\u{2002}' || c == '\u{2003}' || c == '\u{2004}'
        || c == '\u{2005}' || c == '\u{2006}' || c == '\u{2007}' || c == '\u{2008}'
        || c == '\u{2009}' || c == '\u{200a}' || c == '\u{2028}' || c == '\u{2029}'
        || c == '\u{202f}' || c == '\u{205f}' || c == '\u{3000}'
}

pub open spec fn is_digit_char(c: char) -> bool {
    '0' <= c && c <= '9'
}

/// The numeric value of a decimal digit character.
pub open spec fn digit_val(c: char) -> nat
    recommends
        is_digit_char(c),
{
    (c as nat - '0' as nat) as nat
}

pub open spec fn all_digits(s: Seq<char>) -> bool {
    forall|i: int| 0 <= i < s.len() ==> is_digit_char(#[trigger] s[i])
}

/// The value of a sequence of decimal digits, most significant first.
pub open spec fn dec_value(s: Seq<char>) -> nat
    decreases s.len(),
{
    if s.len() == 0 {
        0
    } else {
        dec_value(s.drop_last()) * 10 + digit_val(s.last())
    }
}

// ---------------------------------------------------------------------------
// Splitting on commas
// ---------------------------------------------------------------------------

/// The fields of `s`, split on every comma.  A sequence without commas is a
/// single field; every comma separates two (possibly empty) fields.
pub open spec fn split_commas(s: Seq<char>) -> Seq<Seq<char>>
    decreases s.len(),
{
    if s.len() == 0 {
        seq![s]
    } else if s[0] == ',' {
        seq![Seq::<char>::empty()].add(split_commas(s.drop_first()))
    } else {
        let rest = split_commas(s.drop_first());
        seq![seq![s[0]].add(rest[0])].add(rest.drop_first())
    }
}

pub proof fn lemma_split_commas_len(s: Seq<char>)
    ensures
        split_commas(s).len() >= 1,
    decreases s.len(),
{
    if s.len() == 0 {
    } else {
        lemma_split_commas_len(s.drop_first());
    }
}

/// A sequence without commas is one single field.
pub proof fn lemma_split_commas_no_comma(s: Seq<char>)
    requires
        forall|i: int| 0 <= i < s.len() ==> #[trigger] s[i] != ',',
    ensures
        split_commas(s) =~~= seq![s],
    decreases s.len(),
{
    if s.len() == 0 {
    } else {
        lemma_split_commas_no_comma(s.drop_first());
        assert(seq![s[0]].add(s.drop_first()) =~= s);
    }
}

/// Splitting at the first comma: everything before it is the first field and
/// the rest is split on its own.
pub proof fn lemma_split_commas_first_comma(s: Seq<char>, i: int)
    requires
        0 <= i < s.len(),
        s[i] == ',',
        forall|j: int| 0 <= j < i ==> #[trigger] s[j] != ',',
    ensures
        split_commas(s) =~~= seq![s.take(i)].add(split_commas(s.skip(i + 1))),
    decreases i,
{
    lemma_split_commas_len(s.skip(i + 1));
    if i == 0 {
        assert(s.drop_first() =~= s.skip(1));
        assert(s.take(0) =~= Seq::<char>::empty());
    } else {
        lemma_split_commas_first_comma(s.drop_first(), i - 1);
        assert(s.drop_first().take(i - 1) =~= s.take(i).drop_first());
        assert(s.drop_first().skip(i) =~= s.skip(i + 1));
        lemma_split_commas_len(s.drop_first().skip(i));
        assert(seq![s[0]].add(s.take(i).drop_first()) =~= s.take(i));
    }
}

/// The fields joined back into one sequence, a comma between each two.
pub open spec fn join_commas(fields: Seq<Seq<char>>) -> Seq<char>
    decreases fields.len(),
{
    if fields.len() == 0 {
        Seq::empty()
    } else if fields.len() == 1 {
        fields[0]
    } else {
        fields[0] + seq![','] + join_commas(fields.drop_first())
    }
}

/// Splitting undoes joining, for fields that hold no comma themselves.
pub proof fn lemma_split_commas_join(fields: Seq<Seq<char>>)
    requires
        fields.len() >= 1,
        forall|i: int, j: int|
            0 <= i < fields.len() && 0 <= j < fields[i].len() ==> #[trigger] fields[i][j] != ',',
    ensures
        split_commas(join_commas(fields)) == fields,
    decreases fields.len(),
{
    let s = join_commas(fields);
    if fields.len() == 1 {
        lemma_split_commas_no_comma(s);
        assert(split_commas(s) =~~= fields);
    } else {
        let f0 = fields[0];
        let p = f0.len() as int;
        assert(s =~= f0 + seq![','] + join_commas(fields.drop_first()));
        assert(s[p] == ',');
        assert forall|j: int| 0 <= j < p implies #[trigger] s[j] != ',' by {
            assert(s[j] == f0[j]);
        }
        lemma_split_commas_first_comma(s, p);
        assert(s.take(p) =~= f0);
        assert(s.skip(p + 1) =~= join_commas(fields.drop_first()));
        lemma_split_commas_join(fields.drop_first());
        assert(split_commas(s) =~~= fields);
    }
}

/// A property of every field's character and of the comma holds of every
/// character of the joined sequence.
pub proof fn lemma_join_commas_preserves(fields: Seq<Seq<char>>, pred: spec_fn(char) -> bool)
    requires
        forall|i: int, j: int|
            0 <= i < fields.len() && 0 <= j < fields[i].len() ==> pred(#[trigger] fields[i][j]),
        pred(','),
    ensures
        forall|k: int| 0 <= k < join_commas(fields).len() ==> pred(#[trigger] join_commas(fields)[k]),
    decreases fields.len(),
{
    if fields.len() <= 1 {
    } else {
        let s = join_commas(fields);
        let f0 = fields[0];
        let p = f0.len() as int;
        lemma_join_commas_preserves(fields.drop_first(), pred);
        assert forall|k: int| 0 <= k < s.len() implies pred(#[trigger] s[k]) by {
            if k < p {
                assert(s[k] == f0[k]);
            } else if k == p {
                assert(s[k] == ',');
            } else {
                assert(s[k] == join_commas(fields.drop_first())[k - p - 1]);
            }
        }
    }
}

// ---------------------------------------------------------------------------
// Trimming
// ---------------------------------------------------------------------------

pub open spec fn trim_start(s: Seq<char>) -> Seq<char>
    decreases s.len(),
{
    if s.len() > 0 && is_space_char(s[0]) {
        trim_start(s.drop_first())
    } else {
        s
    }
}

pub open spec fn trim_end(s: Seq<char>) -> Seq<char>
    decreases s.len(),
{
    if s.len() > 0 && is_space_char(s.last()) {
        trim_end(s.drop_last())
    } else {
        s
    }
}

/// A field with surrounding whitespace removed.
pub open spec fn spec_trim(s: Seq<char>) -> Seq<char> {
    trim_end(trim_start(s))
}

pub proof fn lemma_trim_start_skip(s: Seq<char>, k: int)
    requires
        0 <= k <= s.len(),
        forall|j: int| 0 <= j < k ==> is_space_char(#[trigger] s[j]),
        k == s.len() || !is_space_char(s[k]),
    ensures
        trim_start(s) =~= s.skip(k),
    decreases k,
{
    if k == 0 {
        assert(s.skip(0) =~= s);
    } else {
        lemma_trim_start_skip(s.drop_first(), k - 1);
        assert(s.drop_first().skip(k - 1) =~= s.skip(k));
    }
}

pub proof fn lemma_trim_end_take(s: Seq<char>, k: int)
    requires
        0 <= k <= s.len(),
        forall|j: int| k <= j < s.len() ==> is_space_char(#[trigger] s[j]),
        k == 0 || !is_space_char(s[k - 1]),
    ensures
        trim_end(s) =~= s.take(k),
    decreases s.len(),
{
    if k == s.len() {
        assert(s.take(k) =~= s);
    } else {
        lemma_trim_end_take(s.drop_last(), k);
        assert(s.drop_last().take(k) =~= s.take(k));
    }
}

/// Trimming leaves a field without whitespace untouched.
pub proof fn lemma_trim_no_space(s: Seq<char>)
    requires
        forall|i: int| 0 <= i < s.len() ==> !is_space_char(#[trigger] s[i]),
    ensures
        spec_trim(s) == s,
{
    lemma_trim_start_skip(s, 0);
    assert(s.skip(0) =~= s);
    lemma_trim_end_take(s, s.len() as int);
    assert(s.take(s.len() as int) =~= s);
}

// ---------------------------------------------------------------------------
// Decimal numbers
// ---------------------------------------------------------------------------

/// The value denoted by a field under `u8` syntax: an optional leading `+`,
/// then at least one digit, within range.
pub open spec fn spec_parse_u8(s: Seq<char>) -> Option<u8> {
    let d = if s.len() > 0 && s[0] == '+' {
        s.drop_first()
    } else {
        s
    };
    if d.len() > 0 && all_digits(d) && dec_value(d) <= u8::MAX {
        Some(dec_value(d) as u8)
    } else {
        None
    }
}

/// The value denoted by a field under `i16` syntax: an optional leading `+`
/// or `-`, then at least one digit, within range.
pub open spec fn spec_parse_i16(s: Seq<char>) -> Option<i16> {
    if s.len() > 0 && s[0] == '-' {
        let d = s.drop_first();
        if d.len() > 0 && all_digits(d) && dec_value(d) <= 32768 {
            Some((0 - dec_value(d) as int) as i16)
        } else {
            None
        }
    } else {
        let d = if s.len() > 0 && s[0] == '+' {
            s.drop_first()
        } else {
            s
        };
        if d.len() > 0 && all_digits(d) && dec_value(d) <= i16::MAX {
            Some(dec_value(d) as i16)
        } else {
            None
        }
    }
}

/// A digit sequence is worth at least as much as any of its prefixes.
pub proof fn lemma_dec_value_prefix_le(s: Seq<char>, k: int)
    requires
        0 <= k <= s.len(),
    ensures
        dec_value(s.take(k)) <= dec_value(s),
    decreases s.len(),
{
    if k == s.len() {
        assert(s.take(k) =~= s);
    } else {
        lemma_dec_value_prefix_le(s.drop_last(), k);
        assert(s.drop_last().take(k) =~= s.take(k));
    }
}

/// Accumulate the digits of `s` from index `start` on, under an inclusive
/// bound; used by both integer field parsers.  Yields the digits' value when
/// every remaining character is a digit and the value stays within `bound`.
fn accumulate_digits(s: &Vec<char>, start: usize, bound: u32) -> (r: Option<u32>)
    requires
        start <= s@.len(),
        bound <= 0x8000,
    ensures
        ({
            let d = s@.skip(start as int);
            match r {
                Some(v) => d.len() > 0 && all_digits(d) && dec_value(d) == v && v <= bound,
                None => d.len() == 0 || !all_digits(d) || dec_value(d) > bound,
            }
        }),
{
    let ghost d = s@.skip(start as int);
    if s.len() == start {
        return None;
    }
    let mut acc: u32 = 0;
    let mut j: usize = start;
    while j < s.len()
        invariant
            start <= j <= s@.len(),
            d == s@.skip(start as int),
            all_digits(d.take(j - start)),
            acc == dec_value(d.take(j - start)),
            acc <= bound,
            bound <= 0x8000,
        decreases s@.len() - j,
    {
        let c = s[j];
        proof {
            assert(d[j - start] == s@[j as int]);
        }
        if c < '0' || c > '9' {
            proof {
                assert(!is_digit_char(d[j - start]));
            }
            return None;
        }
        let dv: u32 = (c as u32) - ('0' as u32);
        proof {
            assert(is_digit_char(d[j - start]));
            assert(dv == digit_val(d[j - start]));
            assert(d.take(j - start + 1).drop_last() =~= d.take(j - start));
            assert(d.take(j - start + 1).last() == d[j - start]);
        }
        acc = acc * 10 + dv;
        proof {
            assert(acc == dec_value(d.take(j - start + 1)));
        }
        if acc > bound {
            proof {
                lemma_dec_value_prefix_le(d, j - start + 1);
            }
            return None;
        }
        j += 1;
    }
    proof {
        assert(d.take(j - start) =~= d);
    }
    Some(acc)
}

/// Parse a field under `u8` syntax; agrees with [`spec_parse_u8`].
pub fn parse_u8_chars(s: &Vec<char>) -> (r: Option<u8>)
    ensures
        r == spec_parse_u8(s@),
{
    proof {
        if s@.len() > 0 {
            assert(s@.skip(1) =~= s@.drop_first());
        }
        assert(s@.skip(0) =~= s@);
    }
    let start: usize = if s.len() > 0 && s[0] == '+' {
        1
    } else {
        0
    };
    match accumulate_digits(s, start, 255) {
        Some(v) => Some(v as u8),
        None => None,
    }
}

/// Parse a field under `i16` syntax; agrees with [`spec_parse_i16`].
pub fn parse_i16_chars(s: &Vec<char>) -> (r: Option<i16>)
    ensures
        r == spec_parse_i16(s@),
{
    proof {
        if s@.len() > 0 {
            assert(s@.skip(1) =~= s@.drop_first());
        }
        assert(s@.skip(0) =~= s@);
    }
    if s.len() > 0 && s[0] == '-' {
        match accumulate_digits(s, 1, 32768) {
            Some(v) => {
                if v == 32768 {
                    Some(i16::MIN)
                } else {
                    Some(0 - (v as i16))
                }
            },
            None => None,
        }
    } else {
        let start: usize = if s.len() > 0 && s[0] == '+' {
            1
        } else {
            0
        };
        match accumulate_digits(s, start, 32767) {
            Some(v) => Some(v as i16),
            None => None,
        }
    }
}

// ---------------------------------------------------------------------------
// Executable splitting and trimming
// ---------------------------------------------------------------------------

/// The characters of `s`, in order.
pub fn str_to_chars(s: &str) -> (r: Vec<char>)
    ensures
        r@ == s@,
{
    let mut it = s.chars();
    let mut r: Vec<char> = Vec::new();
    loop
        invariant
            it.obeys_prophetic_iter_laws(),
            it.decrease() is Some,
            r@ + it.remaining() == s@,
        ensures
            r@ == s@,
        decreases it.decrease()->0,
    {
        match it.next() {
            Some(c) => {
                r.push(c);
            },
            None => {
                proof {
                    assert(r@ =~= s@);
                }
                break;
            },
        }
    }
    r
}

/// Split `chars` into fields on every comma; agrees with [`split_commas`].
pub fn split_commas_chars(chars: &Vec<char>) -> (r: Vec<Vec<char>>)
    ensures
        r.deep_view() == split_commas(chars@),
{
    let mut parts: Vec<Vec<char>> = Vec::new();
    let mut cur: Vec<char> = Vec::new();
    let mut i: usize = 0;
    proof {
        assert(chars@.skip(0) =~= chars@);
        assert(parts.deep_view() =~~= Seq::<Seq<char>>::empty());
        assert(Seq::<Seq<char>>::empty().add(split_commas(chars@)) =~~= split_commas(chars@));
    }
    while i < chars.len()
        invariant
            i <= chars@.len(),
            cur@ =~= chars@.subrange(i - cur@.len(), i as int),
            cur@.len() <= i,
            forall|j: int| 0 <= j < cur@.len() ==> #[trigger] cur@[j] != ',',
            split_commas(chars@) =~~= parts.deep_view().add(
                split_commas(chars@.skip(i - cur@.len())),
            ),
        decreases chars@.len() - i,
    {
        let c = chars[i];
        if c == ',' {
            proof {
                let rest = chars@.skip(i - cur@.len());
                lemma_split_commas_first_comma(rest, cur@.len() as int);
                assert(rest.take(cur@.len() as int) =~= cur@);
                assert(rest.skip(cur@.len() as int + 1) =~= chars@.skip(i + 1));
            }
            parts.push(cur);
            cur = Vec::new();
            proof {
                assert(parts.deep_view().drop_last() + seq![parts.deep_view().last()]
                    =~~= parts.deep_view());
            }
        } else {
            cur.push(c);
        }
        i += 1;
    }
    proof {
        let rest = chars@.skip(i - cur@.len());
        lemma_split_commas_no_comma(rest);
        assert(rest =~= cur@);
    }
    parts.push(cur);
    proof {
        assert(parts.deep_view().drop_last() + seq![parts.deep_view().last()]
            =~~= parts.deep_view());
        assert(parts.deep_view() =~~= split_commas(chars@));
    }
    parts
}

/// Remove surrounding whitespace; agrees with [`spec_trim`].
pub fn trim_chars(s: &Vec<char>) -> (r: Vec<char>)
    ensures
        r@ == spec_trim(s@),
{
    let mut lo: usize = 0;
    while lo < s.len() && is_space_exec(s[lo])
        invariant
            lo <= s@.len(),
            forall|j: int| 0 <= j < lo ==> is_space_char(#[trigger] s@[j]),
        decreases s@.len() - lo,
    {
        lo += 1;
    }
    proof {
        lemma_trim_start_skip(s@, lo as int);
    }
    let mut hi: usize = s.len();
    while hi > lo && is_space_exec(s[hi - 1])
        invariant
            lo <= hi <= s@.len(),
            forall|j: int| hi <= j < s@.len() ==> is_space_char(#[trigger] s@[j]),
        decreases hi,
    {
        hi -= 1;
    }
    proof {
        lemma_trim_end_take(s@.skip(lo as int), hi - lo);
    }
    let mut r: Vec<char> = Vec::new();
    let mut i: usize = lo;
    while i < hi
        invariant
            lo <= i <= hi <= s@.len(),
            r@ =~= s@.subrange(lo as int, i as int),
        decreases hi - i,
    {
        r.push(s[i]);
        i += 1;
    }
    proof {
        assert(r@ =~= s@.skip(lo as int).take(hi - lo));
    }
    r
}

/// Whether `c` is trimmed by [`spec_trim`]; agrees with [`is_space_char`].
fn is_space_exec(c: char) -> (r: bool)
    ensures
        r == is_space_char(c),
{
    c == ' ' || c == '\t' || c == '\n' || c == '\r' || c == '\u{b}' || c == '\u{c}'
        || c == '\u{85}' || c == '\u{a0}' || c == '\u{1680}' || c == '\u{2000}'
        || c == '\u{2001}' || c == '\u{2002}' || c == '\u{2003}' || c == '\u{2004}'
        || c == '\u{2005}' || c == '\u{2006}' || c == '\u{2007}' || c == '\u{2008}'
        || c == '\u{2009}' || c == '\u{200a}' || c == '\u{2028}' || c == '\u{2029}'
        || c == '\u{202f}' || c == '\u{205f}' || c == '\u{3000}'
}

} // verus!
