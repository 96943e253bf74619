//! Text building blocks: comparison, number rendering and joining, each with
//! its meaning over character sequences.

use vstd::prelude::*;
use vstd::utf8::*;

verus! {

/// The lower-case hexadecimal digit for `d`; for `d` below ten, the decimal
/// digit.
pub open spec fn digit(d: int) -> char {
    seq!['0', '1', '2', '3', '4', '5', '6', '7', '8', '9', 'a', 'b', 'c', 'd', 'e', 'f'][d]
}

/// Decimal rendering of `n`, without leading zeros.
pub open spec fn decimal(n: nat) -> Seq<char>
    decreases n,
{
    if n < 10 {
        seq![digit(n as int)]
    } else {
        decimal(n / 10).push(digit((n % 10) as int))
    }
}

/// The lowest `width` hexadecimal digits of `n`, most significant first.
pub open spec fn hex(n: nat, width: nat) -> Seq<char>
    decreases width,
{
    if width == 0 {
        Seq::empty()
    } else {
        hex(n / 16, (width - 1) as nat).push(digit((n % 16) as int))
    }
}

/// `parts` with `separator` between neighbours.
pub open spec fn joined(parts: Seq<Seq<char>>, separator: Seq<char>) -> Seq<char>
    decreases parts.len(),
{
    if parts.len() == 0 {
        Seq::empty()
    } else if parts.len() == 1 {
        parts[0]
    } else {
        joined(parts.drop_last(), separator) + separator + parts.last()
    }
}

/// The characters of each string.
pub open spec fn views(parts: Seq<String>) -> Seq<Seq<char>> {
    parts.map_values(|part: String| part@)
}

/// The characters of a string that may be missing.
pub open spec fn opt_view(text: Option<String>) -> Option<Seq<char>> {
    match text {
        Some(held) => Some(held@),
        None => None,
    }
}

/// The characters of a borrowed string that may be missing.
pub open spec fn opt_str_view(text: Option<&str>) -> Option<Seq<char>> {
    match text {
        Some(held) => Some(held@),
        None => None,
    }
}

/// Whether `part` stands somewhere in `whole`.
pub open spec fn is_within(part: Seq<char>, whole: Seq<char>) -> bool {
    exists|at: int| #[trigger] stands_at(part, whole, at)
}

/// Whether `part` stands at a place of `whole`.
pub open spec fn stands_at(part: Seq<char>, whole: Seq<char>, at: int) -> bool {
    0 <= at && at + part.len() <= whole.len() && whole.subrange(at, at + part.len()) == part
}

/// Whether two optional texts are the same: both missing, or both there with
/// the same characters.
pub open spec fn same_opt(a: Option<String>, b: Option<String>) -> bool {
    match (a, b) {
        (Some(x), Some(y)) => x@ == y@,
        (None, None) => true,
        _ => false,
    }
}

/// How often `c` occurs in `text`.
pub open spec fn count(text: Seq<char>, c: char) -> nat
    decreases text.len(),
{
    if text.len() == 0 {
        0
    } else {
        count(text.drop_last(), c) + if text.last() == c {
            1nat
        } else {
            0
        }
    }
}

/// Whether two strings hold the same characters.
pub fn str_eq(a: &str, b: &str) -> (same: bool)
    ensures
        same == (a@ == b@),
{
    let left = a.as_bytes();
    let right = b.as_bytes();
    proof {
        encode_utf8_decode_utf8(a@);
        encode_utf8_decode_utf8(b@);
    }
    if left.len() != right.len() {
        return false;
    }
    let mut i: usize = 0;
    while i < left.len()
        invariant
            i <= left.len(),
            left@.len() == right@.len(),
            left@ == encode_utf8(a@),
            right@ == encode_utf8(b@),
            forall|j: int| 0 <= j < i ==> left@[j] == right@[j],
        decreases left.len() - i,
    {
        if left[i] != right[i] {
            return false;
        }
        i += 1;
    }
    assert(left@ =~= right@);
    true
}

/// Whether a text is among others.
pub fn holds_text(texts: &Vec<String>, wanted: &str) -> (held: bool)
    ensures
        held == views(texts@).contains(wanted@),
{
    let mut i: usize = 0;
    while i < texts.len()
        invariant
            i <= texts.len(),
            forall|j: int| 0 <= j < i ==> (#[trigger] texts@[j])@ != wanted@,
        decreases texts.len() - i,
    {
        if str_eq(texts[i].as_str(), wanted) {
            assert(views(texts@)[i as int] == wanted@);
            return true;
        }
        i += 1;
    }
    assert forall|j: int| 0 <= j < views(texts@).len() implies views(texts@)[j] != wanted@ by {
        assert(views(texts@)[j] == texts@[j]@);
    }
    false
}

/// Whether an optional string is present and holds the same characters.
pub fn opt_str_eq(a: &Option<String>, b: &str) -> (same: bool)
    ensures
        same == (opt_view(*a) == Some(b@)),
{
    match a {
        Some(held) => str_eq(held.as_str(), b),
        None => false,
    }
}

/// A copy of an optional string.
pub fn opt_copy(text: &Option<String>) -> (copy: Option<String>)
    ensures
        opt_view(copy) == opt_view(*text),
{
    match text {
        Some(held) => Some(held.clone()),
        None => None,
    }
}

/// An owned copy of an optional borrowed string.
pub fn opt_owned(text: Option<&str>) -> (owned: Option<String>)
    ensures
        opt_view(owned) == opt_str_view(text),
{
    match text {
        Some(held) => Some(held.to_string()),
        None => None,
    }
}

/// `String::push`: the character goes to the end of the text.
pub assume_specification[ std::string::String::push ](s: &mut std::string::String, c: char)
    ensures
        final(s)@ == old(s)@.push(c),
;

/// The digit for `d`.
fn digit_char(d: u8) -> (c: char)
    requires
        d < 16,
    ensures
        c == digit(d as int),
{
    match d {
        0 => '0',
        1 => '1',
        2 => '2',
        3 => '3',
        4 => '4',
        5 => '5',
        6 => '6',
        7 => '7',
        8 => '8',
        9 => '9',
        10 => 'a',
        11 => 'b',
        12 => 'c',
        13 => 'd',
        14 => 'e',
        _ => 'f',
    }
}

/// Appends the decimal rendering of `n`.
pub fn push_decimal(out: &mut String, n: u64)
    ensures
        final(out)@ == old(out)@ + decimal(n as nat),
    decreases n,
{
    if n >= 10 {
        push_decimal(out, n / 10);
    }
    out.push(digit_char((n % 10) as u8));
    assert(out@ =~= old(out)@ + decimal(n as nat));
}

/// Appends the lowest `width` hexadecimal digits of `n`.
pub fn push_hex(out: &mut String, n: u128, width: usize)
    ensures
        final(out)@ == old(out)@ + hex(n as nat, width as nat),
    decreases width,
{
    if width > 0 {
        push_hex(out, n / 16, width - 1);
        out.push(digit_char((n % 16) as u8));
    }
    assert(out@ =~= old(out)@ + hex(n as nat, width as nat));
}

/// Joins `parts` with `separator` between neighbours.
pub fn join(parts: &Vec<String>, separator: &str) -> (text: String)
    ensures
        text@ == joined(views(parts@), separator@),
{
    let mut text = String::new();
    let mut i: usize = 0;
    proof {
        assert(views(parts@).take(0) =~= Seq::empty());
    }
    while i < parts.len()
        invariant
            i <= parts.len(),
            text@ == joined(views(parts@).take(i as int), separator@),
        decreases parts.len() - i,
    {
        let ghost before = views(parts@).take(i as int);
        let ghost after = views(parts@).take(i + 1);
        if i > 0 {
            text.append(separator);
        }
        text.append(parts[i].as_str());
        proof {
            assert(after.drop_last() =~= before);
            assert(after.last() == parts@[i as int]@);
            if i == 0 {
                assert(text@ =~= after[0]);
            }
        }
        i += 1;
    }
    proof {
        assert(views(parts@).take(i as int) =~= views(parts@));
    }
    text
}

/// A text stands between what is put around it, and so does whatever stands in
/// it.
pub proof fn parts_stay_within(part: Seq<char>, before: Seq<char>, whole: Seq<char>, after: Seq<char>)
    requires
        is_within(part, whole),
    ensures
        is_within(part, before + whole + after),
{
    let at = choose|at: int| #[trigger] stands_at(part, whole, at);
    let all = before + whole + after;
    assert(all.subrange(before.len() + at, before.len() + at + part.len()) =~= part) by {
        assert(whole.subrange(at, at + part.len()) == part);
        assert forall|i: int| 0 <= i < part.len() implies all[before.len() + at + i] == part[i] by {
            assert(whole.subrange(at, at + part.len())[i] == part[i]);
        }
    }
    assert(stands_at(part, all, before.len() + at));
}

/// Every text stands in itself.
pub proof fn a_text_is_within_itself(whole: Seq<char>)
    ensures
        is_within(whole, whole),
{
    assert(whole.subrange(0, whole.len() as int) =~= whole);
    assert(stands_at(whole, whole, 0));
}

/// A text stands between what is put around it.
pub proof fn a_part_is_within(before: Seq<char>, part: Seq<char>, after: Seq<char>)
    ensures
        is_within(part, before + part + after),
{
    a_text_is_within_itself(part);
    parts_stay_within(part, before, part, after);
}

/// Occurrences add up.
pub proof fn count_of_a_sum(a: Seq<char>, b: Seq<char>, c: char)
    ensures
        count(a + b, c) == count(a, c) + count(b, c),
    decreases b.len(),
{
    if b.len() == 0 {
        assert(a + b =~= a);
    } else {
        assert((a + b).drop_last() =~= a + b.drop_last());
        count_of_a_sum(a, b.drop_last(), c);
    }
}

/// A text split at a separator is split in one way only, once it is known how
/// many separators stand in the part before it.
pub proof fn split_by_the_head(a: Seq<char>, b: Seq<char>, x: Seq<char>, y: Seq<char>, c: char)
    requires
        a.push(c) + b == x.push(c) + y,
        count(a, c) == count(x, c),
    ensures
        a == x,
        b == y,
{
    let whole = a.push(c) + b;
    if a.len() < x.len() {
        a_shorter_head_has_fewer(a, b, x, y, c);
    } else if x.len() < a.len() {
        a_shorter_head_has_fewer(x, y, a, b, c);
    }
    assert(whole.take(a.len() as int) =~= a);
    assert(whole.take(x.len() as int) =~= x);
    assert(whole.skip(a.len() as int + 1) =~= b);
    assert(whole.skip(x.len() as int + 1) =~= y);
}

/// Of two heads of one text, the longer holds the separator behind the
/// shorter.
proof fn a_shorter_head_has_fewer(
    a: Seq<char>,
    b: Seq<char>,
    x: Seq<char>,
    y: Seq<char>,
    c: char,
)
    requires
        a.push(c) + b == x.push(c) + y,
        a.len() < x.len(),
    ensures
        count(a, c) < count(x, c),
{
    let whole = a.push(c) + b;
    let rest = x.skip(a.len() as int + 1);
    assert(whole.take(x.len() as int) =~= x);
    assert(x.take(a.len() as int + 1) =~= a.push(c));
    assert(x =~= a.push(c) + rest);
    count_of_a_sum(a.push(c), rest, c);
    assert(a.push(c).drop_last() =~= a);
}

/// A text split at a separator is split in one way only, once it is known how
/// many separators stand in the part behind it.
pub proof fn split_by_the_tail(a: Seq<char>, b: Seq<char>, x: Seq<char>, y: Seq<char>, c: char)
    requires
        a.push(c) + b == x.push(c) + y,
        count(b, c) == count(y, c),
    ensures
        a == x,
        b == y,
{
    count_of_a_sum(a.push(c), b, c);
    count_of_a_sum(x.push(c), y, c);
    assert(a.push(c).drop_last() =~= a);
    assert(x.push(c).drop_last() =~= x);
    split_by_the_head(a, b, x, y, c);
}

/// A number's rendering holds nothing but digits.
pub proof fn decimal_has_no(n: nat, c: char)
    requires
        forall|d: int| 0 <= d < 10 ==> digit(d) != c,
    ensures
        count(decimal(n), c) == 0,
    decreases n,
{
    if n >= 10 {
        decimal_has_no(n / 10, c);
        assert(decimal(n).drop_last() =~= decimal(n / 10));
        assert(decimal(n).last() == digit((n % 10) as int));
    } else {
        assert(decimal(n).drop_last() =~= Seq::<char>::empty());
        assert(count(Seq::<char>::empty(), c) == 0);
        assert(decimal(n).last() == digit(n as int));
    }
}

/// Two numbers with the same decimal rendering are the same number.
pub proof fn decimal_is_injective(a: nat, b: nat)
    requires
        decimal(a) == decimal(b),
    ensures
        a == b,
    decreases a,
{
    assert(decimal(a).last() == digit((a % 10) as int));
    assert(decimal(b).last() == digit((b % 10) as int));
    if a >= 10 && b >= 10 {
        assert(decimal(a).drop_last() =~= decimal(a / 10));
        assert(decimal(b).drop_last() =~= decimal(b / 10));
        decimal_is_injective(a / 10, b / 10);
    } else if a >= 10 {
        decimal_is_not_empty(a / 10);
    } else if b >= 10 {
        decimal_is_not_empty(b / 10);
    }
}

/// A rendering has at least one digit.
pub proof fn decimal_is_not_empty(n: nat)
    ensures
        decimal(n).len() > 0,
{
}

/// A hexadecimal rendering is as long as it was asked to be.
pub proof fn hex_has_its_width(n: nat, width: nat)
    ensures
        hex(n, width).len() == width,
    decreases width,
{
    if width > 0 {
        hex_has_its_width(n / 16, (width - 1) as nat);
    }
}

/// Sixteen to the power of `width`: how many numbers fit in `width`
/// hexadecimal digits.
pub open spec fn hex_range(width: nat) -> nat
    decreases width,
{
    if width == 0 {
        1
    } else {
        16 * hex_range((width - 1) as nat)
    }
}

/// The number that a run of decimal digits spells.
pub open spec fn decimal_value(text: Seq<char>) -> int
    decreases text.len(),
{
    if text.len() == 0 {
        0
    } else {
        10 * decimal_value(text.drop_last()) + (text.last() as int - '0' as int)
    }
}

/// A number's rendering spells the number, in decimal digits and without
/// leading zeros.
pub proof fn a_rendering_spells_its_number(n: nat)
    ensures
        decimal_value(decimal(n)) == n,
        forall|i: int| 0 <= i < decimal(n).len() ==> '0' <= #[trigger] decimal(n)[i] <= '9',
        n > 0 ==> decimal(n)[0] != '0',
        decimal(n).len() == 1 <==> n < 10,
    decreases n,
{
    let rendered = decimal(n);
    let d = (n % 10) as int;
    assert(digit(d) as int == '0' as int + d);
    decimal_is_not_empty(n);
    if n >= 10 {
        let rest = decimal(n / 10);
        a_rendering_spells_its_number(n / 10);
        decimal_is_not_empty(n / 10);
        assert(rendered.drop_last() =~= rest);
        assert(rendered.last() == digit(d));
        assert(rendered[0] == rest[0]);
        assert forall|i: int| 0 <= i < rendered.len() implies '0' <= #[trigger] rendered[i]
            <= '9' by {
            if i < rest.len() {
                assert(rendered[i] == rest[i]);
            }
        }
    } else {
        reveal_with_fuel(decimal_value, 2);
        assert(rendered.drop_last() =~= Seq::empty());
        assert(rendered.last() == digit(n as int));
    }
}

/// The texts that are joined come in order, with the separator between them and
/// nowhere else: nothing joined is nothing, one text is itself, and one more
/// puts a separator and itself behind the others.
pub proof fn joined_texts_come_in_order(
    parts: Seq<Seq<char>>,
    separator: Seq<char>,
    last: Seq<char>,
)
    ensures
        joined(Seq::empty(), separator).len() == 0,
        joined(seq![last], separator) == last,
        parts.len() > 0 ==> joined(parts.push(last), separator) == joined(parts, separator)
            + separator + last,
{
    assert(parts.push(last).drop_last() =~= parts);
}

/// The characters of strings are theirs, one for one; those of one that may be
/// missing are there exactly where it is.
pub proof fn views_are_those_of_the_strings(parts: Seq<String>, held: Option<String>)
    ensures
        views(parts).len() == parts.len(),
        forall|i: int| 0 <= i < parts.len() ==> #[trigger] views(parts)[i] == parts[i]@,
        match held {
            Some(text) => opt_view(held) == Some(text@),
            None => opt_view(held) is None,
        },
{
}

} // verus!
