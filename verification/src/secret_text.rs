//! A secret in UTF-16, in a buffer that is wiped when it is dropped.

#[allow(unused_imports)]
use crate::text::{utf8_len, utf8_width};
use vstd::prelude::*;

verus! {

/// A buffer of UTF-16 code units, held by a `zeroize::Zeroizing`, which wipes it
/// when it is dropped.
#[verifier::external_body]
pub struct SecretUnits {
    units: zeroize::Zeroizing<Vec<u16>>,
}

/// What a buffer holds.
pub uninterp spec fn held(buffer: SecretUnits) -> Seq<u16>;

/// `zeroize::Zeroizing::new`: the buffer takes over the units as they are. That
/// they are wiped on drop is not part of the contract.
#[verifier::external_body]
fn hold(units: Vec<u16>) -> (out: SecretUnits)
    ensures
        held(out) == units@,
{
    SecretUnits { units: zeroize::Zeroizing::new(units) }
}

/// The `Deref` of `zeroize::Zeroizing`: the held units, unchanged.
#[verifier::external_body]
fn peek(buffer: &SecretUnits) -> (out: &[u16])
    ensures
        out@ == held(*buffer),
{
    &buffer.units
}

/// `zeroize::Zeroize::zeroize` on the held vector: afterwards it is empty. That the
/// memory was overwritten is not part of the contract.
#[verifier::external_body]
fn wipe(buffer: &mut SecretUnits)
    ensures
        held(*final(buffer)) == Seq::<u16>::empty(),
{
    zeroize::Zeroize::zeroize(&mut buffer.units)
}

/// The UTF-16 code units of a character.
pub open spec fn utf16_units(c: char) -> Seq<u16> {
    let code = c as int;
    if code < 0x1_0000 {
        seq![code as u16]
    } else {
        let n = code - 0x1_0000;
        seq![(0xd800 + n / 0x400) as u16, (0xdc00 + n % 0x400) as u16]
    }
}

/// `s` in UTF-16.
pub open spec fn utf16(s: Seq<char>) -> Seq<u16>
    decreases s.len(),
{
    if s.len() == 0 {
        Seq::empty()
    } else {
        utf16(s.drop_last()) + utf16_units(s.last())
    }
}

proof fn lemma_utf8_len_last(s: Seq<char>)
    requires
        s.len() > 0,
    ensures
        utf8_len(s) == utf8_len(s.drop_last()) + utf8_width(s.last()),
{
    let one = seq![s.last()];
    assert(s =~= s.drop_last() + one);
    crate::text::lemma_utf8_len_concat(s.drop_last(), one);
    assert(one.drop_first() =~= Seq::<char>::empty());
    assert(utf8_len(one.drop_first()) == 0);
}

/// UTF-16 never takes more code units than UTF-8 takes bytes, so a buffer of that
/// many units never grows while a secret is written to it.
pub proof fn law_utf16_fits(s: Seq<char>)
    ensures
        utf16(s).len() <= utf8_len(s),
    decreases s.len(),
{
    if s.len() > 0 {
        law_utf16_fits(s.drop_last());
        lemma_utf8_len_last(s);
    }
}

fn push_units(units: &mut Vec<u16>, c: char)
    ensures
        final(units)@ == old(units)@ + utf16_units(c),
{
    let code: u32 = c as u32;
    if code < 0x1_0000 {
        units.push(code as u16);
    } else {
        let n: u32 = code - 0x1_0000;
        units.push((0xd800 + n / 0x400) as u16);
        units.push((0xdc00 + n % 0x400) as u16);
    }
    assert(units@ =~= old(units)@ + utf16_units(c));
}

/// `value` in UTF-16, written to a buffer that is large enough from the start.
pub fn zeroizing_utf16_buffer(value: &str) -> (out: SecretUnits)
    ensures
        held(out) == utf16(value@),
{
    let mut units: Vec<u16> = Vec::with_capacity(value.len());
    for c in it: value.chars()
        invariant
            it.seq() == value@,
            units@ == utf16(value@.take(it.index() as int)),
    {
        assert(value@.take(it.index() + 1).drop_last() =~= value@.take(it.index() as int));
        push_units(&mut units, c);
    }
    assert(value@.take(value@.len() as int) =~= value@);
    hold(units)
}

impl SecretUnits {
    /// The units, to be read.
    pub fn units(&self) -> (out: &[u16])
        ensures
            out@ == held(*self),
    {
        peek(self)
    }

    /// Wipes the buffer before it is dropped.
    pub fn zeroize(&mut self)
        ensures
            held(*final(self)) == Seq::<u16>::empty(),
    {
        wipe(self)
    }
}

/// The code units of two texts stand behind each other; a character of the first plane is
/// one unit, its number, and any other is two, which together give its number back.
pub proof fn law_what_code_units_say(a: Seq<char>, c: char, b: Seq<char>)
    ensures
        utf16(a + b) == utf16(a) + utf16(b),
        (c as int) < 0x1_0000 ==> utf16(seq![c]).len() == 1 && utf16(seq![c])[0] as int == c as int,
        (c as int) >= 0x1_0000 ==> {
            let units = utf16(seq![c]);
            &&& units.len() == 2
            &&& 0xd800 <= units[0] < 0xdc00
            &&& 0xdc00 <= units[1] < 0xe000
            &&& 0x1_0000 + (units[0] - 0xd800) * 0x400 + (units[1] - 0xdc00) == c as int
        },
    decreases b.len(),
{
    let one = seq![c];
    assert(one.drop_last() =~= Seq::<char>::empty());
    assert(utf16(one.drop_last()) =~= Seq::<u16>::empty());
    assert(utf16(one) =~= utf16_units(c));
    if b.len() == 0 {
        assert(a + b =~= a);
        assert(utf16(a) + Seq::<u16>::empty() =~= utf16(a));
    } else {
        law_what_code_units_say(a, c, b.drop_last());
        assert((a + b).drop_last() =~= a + b.drop_last());
        assert(utf16(a) + utf16(b.drop_last()) + utf16_units(b.last()) =~= utf16(a) + (utf16(
            b.drop_last(),
        ) + utf16_units(b.last())));
    }
}

} // verus!
