//! Decoding of the character-composition routine's responses: UTF-16 code
//! unit buffers, the dead-key two-call protocol, and the classification of
//! one composition attempt as text, a dead key, or nothing.

use vstd::prelude::*;
use vstd::string::StrSliceExecFns;

verus! {

/// Whether a UTF-16 code unit is a high (leading) surrogate.
pub open spec fn is_high_surrogate(u: u16) -> bool {
    0xD800 <= u && u < 0xDC00
}

/// Whether a UTF-16 code unit is a low (trailing) surrogate.
pub open spec fn is_low_surrogate(u: u16) -> bool {
    0xDC00 <= u && u < 0xE000
}

/// The Unicode scalar encoded by a surrogate pair.
pub open spec fn surrogate_scalar(hi: u16, lo: u16) -> int {
    0x10000 + (hi - 0xD800) * 0x400 + (lo - 0xDC00)
}

/// Whether a sequence of UTF-16 code units is well formed: every high
/// surrogate is followed by a low surrogate, and no low surrogate stands
/// alone.
pub open spec fn utf16_valid(s: Seq<u16>) -> bool
    decreases s.len(),
{
    if s.len() == 0 {
        true
    } else if is_high_surrogate(s[0]) {
        s.len() >= 2 && is_low_surrogate(s[1]) && utf16_valid(s.skip(2))
    } else if is_low_surrogate(s[0]) {
        false
    } else {
        utf16_valid(s.skip(1))
    }
}

/// The characters a well-formed sequence of UTF-16 code units encodes.
/// (On an ill-formed sequence the lone surrogate is skipped; decoding is
/// only relied on together with `utf16_valid`.)
pub open spec fn utf16_decode(s: Seq<u16>) -> Seq<char>
    decreases s.len(),
{
    if s.len() == 0 {
        Seq::empty()
    } else if is_high_surrogate(s[0]) {
        if s.len() >= 2 && is_low_surrogate(s[1]) {
            seq![(surrogate_scalar(s[0], s[1]) as u32) as char] + utf16_decode(s.skip(2))
        } else {
            utf16_decode(s.skip(1))
        }
    } else if is_low_surrogate(s[0]) {
        utf16_decode(s.skip(1))
    } else {
        seq![(s[0] as u32) as char] + utf16_decode(s.skip(1))
    }
}

/// Relies on `char::from_u32`: it returns `Some` exactly for the values
/// below 0xD800 or in 0xE000..0x110000 (the Unicode scalars), and the
/// resulting character has the given code point.
#[verifier::external_body]
fn char_from_code(v: u32) -> (c: char)
    requires
        v < 0xD800 || (0xE000 <= v && v < 0x110000),
    ensures
        c as u32 == v,
{
    match char::from_u32(v) {
        Some(c) => c,
        None => ' ',
    }
}

/// Relies on `String::push`: it appends exactly the given character.
#[verifier::external_body]
fn push_char(s: &mut String, c: char)
    ensures
        final(s)@ == old(s)@.push(c),
{
    s.push(c);
}

/// Decodes a buffer of UTF-16 code units, or reports that it is ill formed.
pub fn utf16_to_string(units: &Vec<u16>) -> (r: Option<String>)
    ensures
        r is Some <==> utf16_valid(units@),
        r is Some ==> r.unwrap()@ == utf16_decode(units@),
{
    let n = units.len();
    let mut out = String::new();
    let mut i: usize = 0;
    proof {
        assert(units@.skip(0) =~= units@);
        assert(out@ + utf16_decode(units@) =~= utf16_decode(units@));
    }
    while i < n
        invariant
            0 <= i <= n,
            n == units@.len(),
            utf16_valid(units@) <==> utf16_valid(units@.skip(i as int)),
            utf16_valid(units@) ==> utf16_decode(units@) == out@ + utf16_decode(units@.skip(i as int)),
        decreases n - i,
    {
        let ghost rest = units@.skip(i as int);
        let u = units[i];
        if u >= 0xD800 && u < 0xDC00 {
            if i + 1 < n {
                let lo = units[i + 1];
                if lo >= 0xDC00 && lo < 0xE000 {
                    let scalar: u32 = 0x10000u32 + ((u - 0xD800) as u32) * 0x400u32 + ((lo - 0xDC00) as u32);
                    let c = char_from_code(scalar);
                    push_char(&mut out, c);
                    proof {
                        vstd::utf8::char_u32_cast(c, scalar);
                        assert(rest.skip(2) =~= units@.skip(i + 2));
                        assert(utf16_decode(rest) == seq![c] + utf16_decode(rest.skip(2)));
                    }
                    i += 2;
                } else {
                    proof {
                        assert(!utf16_valid(rest));
                    }
                    return None;
                }
            } else {
                proof {
                    assert(!utf16_valid(rest));
                }
                return None;
            }
        } else if u >= 0xDC00 && u < 0xE000 {
            proof {
                assert(!utf16_valid(rest));
            }
            return None;
        } else {
            let c = char_from_code(u as u32);
            push_char(&mut out, c);
            proof {
                vstd::utf8::char_u32_cast(c, u as u32);
                assert(rest.skip(1) =~= units@.skip(i + 1));
                assert(utf16_decode(rest) == seq![c] + utf16_decode(rest.skip(1)));
            }
            i += 1;
        }
    }
    proof {
        assert(units@.skip(n as int) =~= Seq::<u16>::empty());
        if utf16_valid(units@) {
            assert(utf16_decode(units@) =~= out@);
        }
    }
    Some(out)
}

/// The outcome of one invocation of the OS character-composition routine:
/// the signal it returned (negative for a dead key, positive for that many
/// code units of text, zero for nothing) together with the code units it
/// produced.
pub struct CompositionCall {
    pub signal: i32,
    pub units: Vec<u16>,
}

impl CompositionCall {
    /// A positive signal is accompanied by exactly that many code units.
    pub open spec fn wf(&self) -> bool {
        self.signal > 0 ==> self.units@.len() == self.signal
    }
}

/// A composition probe for one virtual key under one modifier combination:
/// the first call's outcome and, because the first call may leave dead-key
/// state behind that only an identical second call consumes, the outcome of
/// that second call.  A dead-key signal delivers the combining character in
/// the first call's buffer; the second call consumes the dead-key state and
/// usually echoes that character.  The second outcome is only meaningful
/// (and only read) when the first signalled a dead key.
pub struct Composition {
    pub first: CompositionCall,
    pub second: CompositionCall,
}

impl Composition {
    /// Both recorded calls are well formed.
    pub open spec fn wf(&self) -> bool {
        self.first.wf() && self.second.wf()
    }
}

/// What one composition attempt resolved to.
#[derive(Debug, Eq, PartialEq)]
pub enum ToUnicodeResult {
    /// Composed text.
    Str(String),
    /// A dead key, with its combining character if either call produced
    /// one.
    Dead(Option<char>),
    /// No information.
    Nothing,
}

/// The spec-level counterpart of [`ToUnicodeResult`]: text as a character
/// sequence.
pub enum ComposedText {
    Text(Seq<char>),
    Dead(Option<char>),
    Nothing,
}

/// Whether an executable composition result carries the given spec-level
/// value.
pub open spec fn unicode_matches(r: ToUnicodeResult, t: ComposedText) -> bool {
    match (r, t) {
        (ToUnicodeResult::Str(s), ComposedText::Text(cs)) => s@ == cs,
        (ToUnicodeResult::Dead(a), ComposedText::Dead(b)) => a == b,
        (ToUnicodeResult::Nothing, ComposedText::Nothing) => true,
        _ => false,
    }
}

/// Whether a recorded call's code units carry a usable character: well
/// formed and non-empty.
pub open spec fn usable_units(units: Seq<u16>) -> bool {
    utf16_valid(units) && utf16_decode(units).len() > 0
}

/// The classification of one composition probe.
///
/// A negative first signal is a dead key: the second call, made with
/// identical inputs to consume the dead-key state, supplies the combining
/// character when it yields well-formed, non-empty text; when it yields
/// nothing usable, the character the dead-key signal itself recorded in the
/// first call's buffer is taken instead, and only a probe where neither
/// call yields a character is a dead key carrying nothing.  A positive
/// first signal is composed text when its code units are well formed;
/// ill-formed text is discarded.  A zero signal, or ill-formed text, is no
/// information.
pub open spec fn spec_to_unicode(c: Composition) -> ComposedText {
    if c.first.signal < 0 {
        if c.second.signal > 0 && usable_units(c.second.units@) {
            ComposedText::Dead(Some(utf16_decode(c.second.units@)[0]))
        } else if usable_units(c.first.units@) {
            ComposedText::Dead(Some(utf16_decode(c.first.units@)[0]))
        } else {
            ComposedText::Dead(None)
        }
    } else if c.first.signal > 0 && utf16_valid(c.first.units@) {
        ComposedText::Text(utf16_decode(c.first.units@))
    } else {
        ComposedText::Nothing
    }
}

/// The dead key carried by one recorded call's units alone.
fn dead_from_units(units: &Vec<u16>) -> (r: ToUnicodeResult)
    ensures
        unicode_matches(r, if usable_units(units@) {
            ComposedText::Dead(Some(utf16_decode(units@)[0]))
        } else {
            ComposedText::Dead(None)
        }),
{
    match utf16_to_string(units) {
        Some(s) => {
            if s.as_str().unicode_len() > 0 {
                let ch = s.as_str().get_char(0);
                ToUnicodeResult::Dead(Some(ch))
            } else {
                ToUnicodeResult::Dead(None)
            }
        },
        None => ToUnicodeResult::Dead(None),
    }
}

/// Classifies one composition probe as text, a dead key, or nothing.
pub fn to_unicode_string(c: &Composition) -> (r: ToUnicodeResult)
    requires
        c.wf(),
    ensures
        unicode_matches(r, spec_to_unicode(*c)),
{
    if c.first.signal < 0 {
        if c.second.signal > 0 {
            match utf16_to_string(&c.second.units) {
                Some(s) => {
                    if s.as_str().unicode_len() > 0 {
                        let ch = s.as_str().get_char(0);
                        ToUnicodeResult::Dead(Some(ch))
                    } else {
                        dead_from_units(&c.first.units)
                    }
                },
                None => dead_from_units(&c.first.units),
            }
        } else {
            dead_from_units(&c.first.units)
        }
    } else if c.first.signal > 0 {
        match utf16_to_string(&c.first.units) {
            Some(s) => ToUnicodeResult::Str(s),
            None => ToUnicodeResult::Nothing,
        }
    } else {
        ToUnicodeResult::Nothing
    }
}

/// The dead-key protocol: a probe whose first call signals a dead key
/// resolves to a dead key carrying the first character of the second call's
/// well-formed, non-empty text; when the second call yields nothing usable
/// the combining character recorded by the first call itself — the accent
/// the dead-key signal delivered — is carried instead; and only when
/// neither call yields a character does the dead key carry nothing.
pub proof fn lemma_dead_key_protocol(c: Composition)
    ensures
        c.first.signal < 0 && c.second.signal > 0 && usable_units(c.second.units@)
            ==> spec_to_unicode(c) == ComposedText::Dead(Some(utf16_decode(c.second.units@)[0])),
        c.first.signal < 0 && !(c.second.signal > 0 && usable_units(c.second.units@))
            && usable_units(c.first.units@)
            ==> spec_to_unicode(c) == ComposedText::Dead(Some(utf16_decode(c.first.units@)[0])),
        c.first.signal < 0 && !(c.second.signal > 0 && usable_units(c.second.units@))
            && !usable_units(c.first.units@)
            ==> spec_to_unicode(c) == ComposedText::Dead(None),
{
}

} // verus!
