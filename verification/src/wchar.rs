use vstd::prelude::*;

use vstd::string::StrSliceExecFns;
use vstd::utf8::char_is_scalar;

verus! {

/// The UTF-16 code units of one character: characters below `0x10000` are
/// one unit, everything above is a surrogate pair.
pub open spec fn utf16_char(c: char) -> Seq<u16> {
    if (c as u32) < 0x10000 {
        seq![c as u16]
    } else {
        seq![
            (0xD800 + (((c as u32) - 0x10000) / 0x400)) as u16,
            (0xDC00 + (((c as u32) - 0x10000) % 0x400)) as u16,
        ]
    }
}

/// The UTF-16 code units of a character sequence, in order.
pub open spec fn utf16_of(s: Seq<char>) -> Seq<u16>
    decreases s,
{
    if s.len() == 0 {
        Seq::empty()
    } else {
        utf16_char(s[0]) + utf16_of(s.drop_first())
    }
}

/// Extending the text appends its code units.
pub proof fn lemma_utf16_push(s: Seq<char>, c: char)
    ensures
        utf16_of(s.push(c)) == utf16_of(s) + utf16_char(c),
    decreases s,
{
    if s.len() == 0 {
        assert(s.push(c)[0] == c);
        assert(s.push(c).len() == 1);
        assert(utf16_of(s.push(c)) == utf16_char(s.push(c)[0]) + utf16_of(
            s.push(c).drop_first(),
        ));
        assert(s.push(c).drop_first().len() == 0);
        assert(utf16_of(s.push(c).drop_first()) == Seq::<u16>::empty());
        assert(utf16_of(s.push(c)) =~= utf16_of(s) + utf16_char(c));
    } else {
        lemma_utf16_push(s.drop_first(), c);
        assert(s.push(c)[0] == s[0]);
        assert(s.push(c).drop_first() =~= s.drop_first().push(c));
        assert(utf16_of(s.push(c)) == utf16_char(s[0]) + utf16_of(s.drop_first().push(c)));
        assert(utf16_of(s.push(c)) =~= utf16_of(s) + utf16_char(c));
    }
}

/// Encode a string as UTF-16 code units.
fn encode_utf16_units(s: &str) -> (r: Vec<u16>)
    ensures
        r@ == utf16_of(s@),
{
    let n = s.unicode_len();
    let mut out: Vec<u16> = Vec::new();
    let mut i: usize = 0;
    proof {
        assert(s@.take(0) =~= Seq::<char>::empty());
        assert(out@ =~= utf16_of(s@.take(0)));
    }
    while i < n
        invariant
            n == s@.len(),
            i <= n,
            out@ == utf16_of(s@.take(i as int)),
        decreases n - i,
    {
        let c = s.get_char(i);
        let cu = c as u32;
        proof {
            char_is_scalar(c);
        }
        if cu < 0x10000 {
            out.push(c as u16);
        } else {
            let hi: u32 = 0xD800 + ((cu - 0x10000) / 0x400);
            let lo: u32 = 0xDC00 + ((cu - 0x10000) % 0x400);
            out.push(hi as u16);
            out.push(lo as u16);
        }
        proof {
            lemma_utf16_push(s@.take(i as int), c);
            assert(s@.take(i as int).push(s@[i as int]) =~= s@.take(i as int + 1));
            assert(out@ =~= utf16_of(s@.take(i as int + 1)));
        }
        i += 1;
    }
    proof {
        assert(s@.take(n as int) =~= s@);
    }
    out
}

/// The UTF-16 code units of `string` followed by one terminating zero
/// unit, the shape a wide-character API expects behind a pointer.
pub fn wchar(string: &str) -> (r: Vec<u16>)
    ensures
        r@ == utf16_of(string@).push(0u16),
{
    let mut units = encode_utf16_units(string);
    units.push(0u16);
    units
}

/// Copy `string` into the fixed-size unit buffer `dst`: as many leading
/// code units as leave room for a zero terminator, the terminator after
/// them, and the rest of the buffer untouched.
pub fn wchar_array(string: &str, dst: &mut [u16])
    requires
        old(dst)@.len() >= 1,
    ensures
        final(dst)@.len() == old(dst)@.len(),
        ({
            let units = utf16_of(string@);
            let keep = if units.len() <= old(dst)@.len() - 1 {
                units.len() as int
            } else {
                old(dst)@.len() - 1
            };
            final(dst)@ == units.take(keep).push(0u16) + old(dst)@.skip(keep + 1)
        }),
{
    let units = encode_utf16_units(string);
    let cap = dst.len() - 1;
    let keep = if units.len() <= cap {
        units.len()
    } else {
        cap
    };
    let mut i: usize = 0;
    while i < keep
        invariant
            keep <= units@.len(),
            keep <= old(dst)@.len() - 1,
            i <= keep,
            dst@.len() == old(dst)@.len(),
            units@ == utf16_of(string@),
            forall|k: int| 0 <= k < i ==> dst@[k] == units@[k],
            forall|k: int| i <= k < dst@.len() ==> dst@[k] == old(dst)@[k],
        decreases keep - i,
    {
        dst[i] = units[i];
        i += 1;
    }
    dst[keep] = 0u16;
    proof {
        let u = utf16_of(string@);
        assert(dst@ =~= u.take(keep as int).push(0u16) + old(dst)@.skip(keep as int + 1));
    }
}

} // verus!
