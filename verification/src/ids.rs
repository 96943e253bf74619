//! Time-ordered identifiers.

use vstd::prelude::*;

use crate::text;

verus! {

/// A 128-bit identifier whose leading bits are its mint time, so that ordering
/// identifiers orders them by when they were minted.
///
/// Minting needs a clock and a source of randomness, so whoever holds those
/// hands a freshly minted identifier in.
#[derive(Debug, Clone, Copy, PartialEq, Eq, Structural, Hash)]
pub struct Uuid7 {
    pub bits: u128,
}

/// The hyphenated form of an identifier: groups of 8, 4, 4, 4 and 12
/// hexadecimal digits, most significant first.
pub open spec fn uuid_text(bits: u128) -> Seq<char> {
    let n = bits as nat;
    text::hex(n / 0x1_0000_0000_0000_0000_0000_0000, 8) + "-"@ + text::hex(
        n / 0x1_0000_0000_0000_0000_0000,
        4,
    ) + "-"@ + text::hex(n / 0x1_0000_0000_0000_0000, 4) + "-"@ + text::hex(
        n / 0x1_0000_0000_0000,
        4,
    ) + "-"@ + text::hex(n, 12)
}

/// Whether a hyphen stands at a place of the hyphenated form.
pub open spec fn is_hyphen_place(at: int) -> bool {
    at == 8 || at == 13 || at == 18 || at == 23
}

/// The value of a hexadecimal digit, of either case; `None` for any other
/// character.
pub open spec fn hex_digit(c: char) -> Option<nat> {
    if '0' <= c <= '9' {
        Some((c as u32 - '0' as u32) as nat)
    } else if 'a' <= c <= 'f' {
        Some((c as u32 - 'a' as u32 + 10) as nat)
    } else if 'A' <= c <= 'F' {
        Some((c as u32 - 'A' as u32 + 10) as nat)
    } else {
        None
    }
}

/// Whether a character can stand at a place of the hyphenated form.
pub open spec fn fits(c: char, at: int) -> bool {
    if is_hyphen_place(at) {
        c == '-'
    } else {
        hex_digit(c) is Some
    }
}

/// Whether a text has the hyphenated form of an identifier.
pub open spec fn is_hyphenated(text: Seq<char>) -> bool {
    text.len() == 36 && forall|i: int| 0 <= i < text.len() ==> fits(#[trigger] text[i], i)
}

/// The number that the digits among the first `n` characters spell.
pub open spec fn spelled(text: Seq<char>, n: nat) -> nat
    decreases n,
{
    if n == 0 {
        0
    } else if is_hyphen_place(n - 1) {
        spelled(text, (n - 1) as nat)
    } else {
        16 * spelled(text, (n - 1) as nat) + hex_digit(text[n - 1])->0
    }
}

/// How many of the first `n` places of the hyphenated form hold a digit.
spec fn digits_before(n: nat) -> nat
    decreases n,
{
    if n == 0 {
        0
    } else if is_hyphen_place(n - 1) {
        digits_before((n - 1) as nat)
    } else {
        digits_before((n - 1) as nat) + 1
    }
}

/// The value of a hexadecimal digit.
fn digit_value(c: char) -> (value: Option<u8>)
    ensures
        match value {
            Some(held) => hex_digit(c) == Some(held as nat) && held < 16,
            None => hex_digit(c) is None,
        },
{
    if '0' <= c && c <= '9' {
        Some((c as u32 - '0' as u32) as u8)
    } else if 'a' <= c && c <= 'f' {
        Some((c as u32 - 'a' as u32 + 10) as u8)
    } else if 'A' <= c && c <= 'F' {
        Some((c as u32 - 'A' as u32 + 10) as u8)
    } else {
        None
    }
}

/// There is room for every digit of the hyphenated form.
proof fn digits_fit(n: nat)
    requires
        n <= 36,
    ensures
        digits_before(n) <= 32,
        n < 36 && !is_hyphen_place(n as int) ==> digits_before(n) < 32,
{
    reveal_with_fuel(digits_before, 37);
}

/// What fits in fewer digits fits in more.
proof fn ranges_grow(a: nat, b: nat)
    requires
        a <= b,
    ensures
        text::hex_range(a) <= text::hex_range(b),
    decreases b,
{
    if a < b {
        ranges_grow(a, (b - 1) as nat);
    }
}

impl Uuid7 {
    /// The identifier that a hyphenated form spells, in digits of either case;
    /// `None` for any other text.
    pub fn from_text(rendered: &str) -> (id: Option<Self>)
        ensures
            match id {
                Some(found) => is_hyphenated(rendered@) && found.bits == spelled(rendered@, 36),
                None => !is_hyphenated(rendered@),
            },
    {
        if rendered.unicode_len() != 36 {
            return None;
        }
        let mut bits: u128 = 0;
        let mut i: usize = 0;
        assert(text::hex_range(32) == 0x1_0000_0000_0000_0000_0000_0000_0000_0000) by {
            reveal_with_fuel(text::hex_range, 33);
        }
        while i < 36
            invariant
                i <= 36,
                rendered@.len() == 36,
                text::hex_range(32) == 0x1_0000_0000_0000_0000_0000_0000_0000_0000,
                forall|j: int| 0 <= j < i ==> fits(#[trigger] rendered@[j], j),
                bits == spelled(rendered@, i as nat),
                bits < text::hex_range(digits_before(i as nat)),
            decreases 36 - i,
        {
            let c = rendered.get_char(i);
            proof {
                digits_fit(i as nat);
                digits_fit(i as nat + 1);
            }
            if i == 8 || i == 13 || i == 18 || i == 23 {
                if c != '-' {
                    assert(!fits(rendered@[i as int], i as int));
                    return None;
                }
            } else {
                match digit_value(c) {
                    Some(value) => {
                        proof {
                            let before = digits_before(i as nat);
                            assert(text::hex_range(before + 1) == 16 * text::hex_range(before));
                            ranges_grow(before + 1, 32);
                        }
                        bits = 16 * bits + value as u128;
                    },
                    None => {
                        assert(!fits(rendered@[i as int], i as int));
                        return None;
                    },
                }
            }
            i += 1;
        }
        Some(Uuid7 { bits })
    }

    /// The hyphenated hexadecimal form.
    pub fn to_text(&self) -> (rendered: String)
        ensures
            rendered@ == uuid_text(self.bits),
    {
        let mut rendered = String::new();
        text::push_hex(&mut rendered, self.bits / 0x1_0000_0000_0000_0000_0000_0000, 8);
        rendered.append("-");
        text::push_hex(&mut rendered, self.bits / 0x1_0000_0000_0000_0000_0000, 4);
        rendered.append("-");
        text::push_hex(&mut rendered, self.bits / 0x1_0000_0000_0000_0000, 4);
        rendered.append("-");
        text::push_hex(&mut rendered, self.bits / 0x1_0000_0000_0000, 4);
        rendered.append("-");
        text::push_hex(&mut rendered, self.bits, 12);
        assert(rendered@ =~= uuid_text(self.bits));
        rendered
    }
}

/// What a group of digits adds to the number spelled before it.
proof fn a_group_is_spelled(rendered: Seq<char>, from: nat, m: nat, width: nat)
    requires
        from + width <= rendered.len(),
        rendered.subrange(from as int, (from + width) as int) == text::hex(m, width),
        forall|i: int| from <= i < from + width ==> !is_hyphen_place(i),
    ensures
        text::hex_range(width) > 0,
        spelled(rendered, from + width) == spelled(rendered, from) * text::hex_range(width) + m
            % text::hex_range(width),
        forall|i: int|
            from <= i < from + width ==> hex_digit(#[trigger] rendered[i]) is Some,
    decreases width,
{
    if width > 0 {
        let w = (width - 1) as nat;
        let last = (from + w) as int;
        let group = rendered.subrange(from as int, (from + width) as int);
        text::hex_has_its_width(m / 16, w);
        assert(group.last() == rendered[last]);
        assert(group.last() == text::digit((m % 16) as int));
        assert(group.drop_last() =~= rendered.subrange(from as int, last));
        assert(text::hex(m, width).drop_last() =~= text::hex(m / 16, w));
        a_group_is_spelled(rendered, from, m / 16, w);
        let range = text::hex_range(w);
        let before = spelled(rendered, from);
        assert(hex_digit(text::digit((m % 16) as int)) == Some(m % 16));
        vstd::arithmetic::div_mod::lemma_mod_breakdown(m as int, 16, range as int);
        assert(spelled(rendered, (last + 1) as nat) == 16 * spelled(rendered, last as nat) + m
            % 16);
        let rest = (m / 16) % range;
        assert(16 * (before * range + rest) == before * (16 * range) + 16 * rest)
            by (nonlinear_arith);
        assert forall|i: int| from <= i < from + width implies hex_digit(
            #[trigger] rendered[i],
        ) is Some by {
            if i == last {
                assert(rendered[i] == text::digit((m % 16) as int));
            }
        }
    } else {
        assert(m % 1 == 0);
        assert(spelled(rendered, from) * 1 == spelled(rendered, from));
    }
}

/// A number is its leading digits with the next group behind them.
proof fn groups_add_up(n: nat, low: nat, step: nat, range: nat)
    requires
        low > 0,
        step > 0,
        range == step,
    ensures
        (n / (low * step)) * range + (n / low) % range == n / low,
{
    vstd::arithmetic::div_mod::lemma_div_denominator(n as int, low as int, step as int);
    vstd::arithmetic::div_mod::lemma_fundamental_div_mod((n / low) as int, step as int);
    vstd::arithmetic::mul::lemma_mul_is_commutative(
        step as int,
        ((n / low) / step) as int,
    );
}

/// Reading back: the text of an identifier spells that identifier.
pub proof fn an_identifier_is_read_back(bits: u128)
    ensures
        is_hyphenated(uuid_text(bits)),
        spelled(uuid_text(bits), 36) == bits,
{
    let n = bits as nat;
    let rendered = uuid_text(bits);
    let m1 = n / 0x1_0000_0000_0000_0000_0000_0000;
    let m2 = n / 0x1_0000_0000_0000_0000_0000;
    let m3 = n / 0x1_0000_0000_0000_0000;
    let m4 = n / 0x1_0000_0000_0000;
    text::hex_has_its_width(m1, 8);
    text::hex_has_its_width(m2, 4);
    text::hex_has_its_width(m3, 4);
    text::hex_has_its_width(m4, 4);
    text::hex_has_its_width(n, 12);
    reveal_strlit("-");
    assert(rendered.len() == 36);
    assert(rendered.subrange(0, 8) =~= text::hex(m1, 8));
    assert(rendered.subrange(9, 13) =~= text::hex(m2, 4));
    assert(rendered.subrange(14, 18) =~= text::hex(m3, 4));
    assert(rendered.subrange(19, 23) =~= text::hex(m4, 4));
    assert(rendered.subrange(24, 36) =~= text::hex(n, 12));
    assert(rendered[8] == '-' && rendered[13] == '-' && rendered[18] == '-' && rendered[23]
        == '-');
    a_group_is_spelled(rendered, 0, m1, 8);
    a_group_is_spelled(rendered, 9, m2, 4);
    a_group_is_spelled(rendered, 14, m3, 4);
    a_group_is_spelled(rendered, 19, m4, 4);
    a_group_is_spelled(rendered, 24, n, 12);
    assert(text::hex_range(4) == 0x1_0000 && text::hex_range(8) == 0x1_0000_0000
        && text::hex_range(12) == 0x1_0000_0000_0000) by {
        reveal_with_fuel(text::hex_range, 13);
    }
    assert(spelled(rendered, 9) == spelled(rendered, 8));
    assert(spelled(rendered, 14) == spelled(rendered, 13));
    assert(spelled(rendered, 19) == spelled(rendered, 18));
    assert(spelled(rendered, 24) == spelled(rendered, 23));
    assert(spelled(rendered, 0) == 0);
    assert(spelled(rendered, 8) == m1) by {
        let range = text::hex_range(8);
        let before = spelled(rendered, 0);
        assert(before * range == 0) by (nonlinear_arith)
            requires
                before == 0,
        ;
        assert(m1 < 0x1_0000_0000);
        vstd::arithmetic::div_mod::lemma_small_mod(m1, range);
    }
    groups_add_up(n, 0x1_0000_0000_0000_0000_0000, 0x1_0000, text::hex_range(4));
    assert(spelled(rendered, 13) == m2);
    groups_add_up(n, 0x1_0000_0000_0000_0000, 0x1_0000, text::hex_range(4));
    assert(spelled(rendered, 18) == m3);
    groups_add_up(n, 0x1_0000_0000_0000, 0x1_0000, text::hex_range(4));
    assert(spelled(rendered, 23) == m4);
    groups_add_up(n, 1, 0x1_0000_0000_0000, text::hex_range(12));
    assert(n / 1 == n);
    assert forall|i: int| 0 <= i < rendered.len() implies fits(#[trigger] rendered[i], i) by {}
}

/// Two identifiers with the same text are the same identifier.
pub proof fn uuid_text_is_injective(a: u128, b: u128)
    requires
        uuid_text(a) == uuid_text(b),
    ensures
        a == b,
{
    an_identifier_is_read_back(a);
    an_identifier_is_read_back(b);
}

} // verus!
