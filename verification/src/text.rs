//! Separated numeric text: the grammar shared by the textual forms of all
//! address families.

use vstd::prelude::*;
use vstd::std_specs::iter::IteratorSpec;

verus! {

broadcast use vstd::string::group_string_axioms;

/// The value that stands for "not a digit": larger than any digit of any
/// radix up to sixteen.
pub const NO_DIGIT: u32 = 16;

/// The value of `c` as a digit, upper or lower case, or `NO_DIGIT`.
pub open spec fn digit_of(c: char) -> int {
    let u = c as u32;
    if 0x30 <= u <= 0x39 {
        u - 0x30
    } else if 0x61 <= u <= 0x66 {
        u - 0x61 + 10
    } else if 0x41 <= u <= 0x46 {
        u - 0x41 + 10
    } else {
        NO_DIGIT as int
    }
}

/// The lower-case character of the digit `d`, for `d` below sixteen.
pub open spec fn digit_char(d: int) -> char {
    if 0 <= d < 10 {
        ((0x30 + d) as u8) as char
    } else {
        ((0x61 + d - 10) as u8) as char
    }
}

/// Executable `digit_of`.
pub fn digit_value(c: char) -> (d: u32)
    ensures
        d == digit_of(c),
{
    let u: u32 = c as u32;
    if 0x30 <= u && u <= 0x39 {
        u - 0x30
    } else if 0x61 <= u && u <= 0x66 {
        u - 0x61 + 10
    } else if 0x41 <= u && u <= 0x46 {
        u - 0x41 + 10
    } else {
        NO_DIGIT
    }
}

/// Executable `digit_char`.
pub fn digit_to_char(d: u8) -> (c: char)
    requires
        d < 16,
    ensures
        c == digit_char(d as int),
{
    if d < 10 {
        (0x30 + d) as char
    } else {
        (0x61 + (d - 10)) as char
    }
}

/// Collects the characters of `s`.
pub fn chars_of(s: &str) -> (out: Vec<char>)
    ensures
        out@ == s@,
{
    let mut it = s.chars();
    let mut out: Vec<char> = Vec::new();
    let ghost all = s@;
    loop
        invariant
            it.obeys_prophetic_iter_laws(),
            it.decrease() is Some,
            all == s@,
            out@ + it.remaining() == all,
        ensures
            out@ == all,
        decreases it.decrease()->0,
    {
        let ghost before = it.remaining();
        match it.next() {
            Some(c) => {
                out.push(c);
                assert(out@ + it.remaining() == all) by {
                    assert(before == seq![c] + before.drop_first());
                    assert(out@ + it.remaining() =~= all);
                }
            },
            None => {
                assert(out@ =~= all);
                break;
            },
        }
    }
    out
}

/// `String::push` appends the character to the end of the string.
pub assume_specification[ String::push ](s: &mut String, c: char)
    ensures
        final(s)@ == old(s)@.push(c),
;

/// How a separated numeric text can fail to hold an address.
#[derive(Clone, Copy, Debug, PartialEq, Eq, Structural)]
pub enum FieldsError {
    /// More fields than the address has components.
    TooMany,
    /// Fewer fields than the address has components.
    TooFew,
    /// A field that is no number of the family's radix and width.
    Invalid,
}

/// The number that the digits `s` write in `radix`, most significant first.
pub open spec fn digits_value(s: Seq<char>, radix: int) -> int
    decreases s.len(),
{
    if s.len() == 0 {
        0
    } else {
        digits_value(s.drop_last(), radix) * radix + digit_of(s.last())
    }
}

/// Every character of `s` is a digit of `radix`.
pub open spec fn all_digits(s: Seq<char>, radix: int) -> bool {
    forall|i: int| 0 <= i < s.len() ==> digit_of(#[trigger] s[i]) < radix
}

/// A field without its optional leading plus sign.
pub open spec fn unsigned(s: Seq<char>) -> Seq<char> {
    if s.len() > 0 && s[0] == '+' {
        s.drop_first()
    } else {
        s
    }
}

/// A field is a component when, after an optional plus sign, it is a
/// non-empty run of digits of `radix` whose value is at most `max`.
pub open spec fn valid_component(s: Seq<char>, radix: int, max: int) -> bool {
    let d = unsigned(s);
    d.len() > 0 && all_digits(d, radix) && digits_value(d, radix) <= max
}

/// The number that a component writes.
pub open spec fn component_value(s: Seq<char>, radix: int) -> int {
    digits_value(unsigned(s), radix)
}

/// The fields of `s`: the maximal runs between separators. A text with `k`
/// separators has `k + 1` fields, some of which may be empty.
pub open spec fn fields(s: Seq<char>, sep: char) -> Seq<Seq<char>>
    decreases s.len(),
{
    if s.len() == 0 {
        seq![Seq::empty()]
    } else {
        let before = fields(s.drop_last(), sep);
        if s.last() == sep {
            before.push(Seq::empty())
        } else {
            before.drop_last().push(before.last().push(s.last()))
        }
    }
}

/// The meaning of a text for a family of `n` components. The fields are
/// looked at in order: an invalid one among the first `n` decides, then the
/// number of fields.
pub open spec fn parsed(s: Seq<char>, sep: char, radix: int, max: int, n: int) -> Result<
    Seq<int>,
    FieldsError,
> {
    let f = fields(s, sep);
    if exists|k: int| 0 <= k < f.len() && k < n && !valid_component(#[trigger] f[k], radix, max) {
        Err(FieldsError::Invalid)
    } else if f.len() > n {
        Err(FieldsError::TooMany)
    } else if f.len() < n {
        Err(FieldsError::TooFew)
    } else {
        Ok(Seq::new(n as nat, |k: int| component_value(f[k], radix)))
    }
}

proof fn lemma_fields_nonempty(s: Seq<char>, sep: char)
    ensures
        fields(s, sep).len() >= 1,
    decreases s.len(),
{
    if s.len() > 0 {
        lemma_fields_nonempty(s.drop_last(), sep);
    }
}

/// Reads the component in `chars[start..end]`.
pub fn parse_component(chars: &[char], start: usize, end: usize, radix: u32, max: u32) -> (r:
    Option<u32>)
    requires
        start <= end <= chars@.len(),
        2 <= radix <= 16,
        max <= 0xffff,
    ensures
        r is Some <==> valid_component(chars@.subrange(start as int, end as int), radix as int, max as int),
        r is Some ==> r->0 == component_value(
            chars@.subrange(start as int, end as int),
            radix as int,
        ) && r->0 <= max,
{
    let ghost field = chars@.subrange(start as int, end as int);
    let mut j: usize = start;
    if j < end && chars[j] == '+' {
        j += 1;
    }
    let first: usize = j;
    assert(unsigned(field) =~= chars@.subrange(first as int, end as int));
    if first == end {
        return None;
    }
    let ghost digits = chars@.subrange(first as int, end as int);
    let mut acc: u32 = 0;
    let mut over: bool = false;
    while j < end
        invariant
            start <= first <= j <= end <= chars@.len(),
            first < end,
            2 <= radix <= 16,
            max <= 0xffff,
            digits == chars@.subrange(first as int, end as int),
            digits == unsigned(chars@.subrange(start as int, end as int)),
            forall|k: int| 0 <= k < j - first ==> digit_of(#[trigger] digits[k]) < radix,
            !over ==> acc == digits_value(chars@.subrange(first as int, j as int), radix as int)
                && acc <= max,
            over ==> digits_value(chars@.subrange(first as int, j as int), radix as int) > max,
        decreases end - j,
    {
        let d: u32 = digit_value(chars[j]);
        if d >= radix {
            assert(digits[j - first] == chars@[j as int]);
            assert(!all_digits(digits, radix as int));
            return None;
        }
        let ghost before = chars@.subrange(first as int, j as int);
        let ghost after = chars@.subrange(first as int, j + 1);
        assert(after.drop_last() =~= before);
        assert(after.last() == chars@[j as int]);
        assert(digits[j - first] == chars@[j as int]);
        if over {
            assert(digits_value(before, radix as int) * radix + d > max) by (nonlinear_arith)
                requires
                    digits_value(before, radix as int) > max,
                    radix >= 2,
                    d >= 0,
                    max >= 0,
            ;
        } else {
            assert(acc * radix + d <= 0xffff * 16 + 16) by (nonlinear_arith)
                requires
                    acc <= 0xffff,
                    radix <= 16,
                    d <= 16,
            ;
            let next: u32 = acc * radix + d;
            if next > max {
                over = true;
            } else {
                acc = next;
            }
        }
        j += 1;
    }
    assert(chars@.subrange(first as int, j as int) == digits);
    assert(all_digits(digits, radix as int));
    if over {
        None
    } else {
        Some(acc)
    }
}

/// Finds where the fields of `chars` begin and end.
pub fn field_bounds(chars: &[char], sep: char) -> (out: Vec<(usize, usize)>)
    ensures
        out@.len() == fields(chars@, sep).len(),
        forall|k: int|
            0 <= k < out@.len() ==> (#[trigger] out@[k]).0 <= out@[k].1 <= chars@.len()
                && chars@.subrange(out@[k].0 as int, out@[k].1 as int) == fields(chars@, sep)[k],
{
    let mut out: Vec<(usize, usize)> = Vec::new();
    let mut start: usize = 0;
    let mut j: usize = 0;
    let len: usize = chars.len();
    assert(chars@.subrange(0, 0) =~= Seq::<char>::empty());
    while j < len
        invariant
            start <= j <= len == chars@.len(),
            out@.len() + 1 == fields(chars@.subrange(0, j as int), sep).len(),
            fields(chars@.subrange(0, j as int), sep).last() == chars@.subrange(
                start as int,
                j as int,
            ),
            forall|k: int|
                0 <= k < out@.len() ==> (#[trigger] out@[k]).0 <= out@[k].1 <= chars@.len()
                    && chars@.subrange(out@[k].0 as int, out@[k].1 as int) == fields(
                    chars@.subrange(0, j as int),
                    sep,
                )[k],
        decreases len - j,
    {
        let ghost before = chars@.subrange(0, j as int);
        let ghost after = chars@.subrange(0, j + 1);
        assert(after.drop_last() =~= before);
        assert(after.last() == chars@[j as int]);
        if chars[j] == sep {
            out.push((start, j));
            start = j + 1;
            assert(chars@.subrange(start as int, j + 1) =~= Seq::<char>::empty());
        } else {
            assert(chars@.subrange(start as int, j + 1) =~= chars@.subrange(
                start as int,
                j as int,
            ).push(chars@[j as int]));
        }
        j += 1;
    }
    assert(chars@.subrange(0, j as int) =~= chars@);
    out.push((start, len));
    out
}

/// Reads a text of `n` components, each at most `max` in `radix`, with
/// `sep` between them.
pub fn parse_fields(chars: &[char], sep: char, radix: u32, max: u32, n: usize) -> (r: Result<
    Vec<u32>,
    FieldsError,
>)
    requires
        2 <= radix <= 16,
        max <= 0xffff,
    ensures
        match r {
            Ok(v) => parsed(chars@, sep, radix as int, max as int, n as int) == Ok::<
                Seq<int>,
                FieldsError,
            >(Seq::new(n as nat, |k: int| v@[k] as int)) && v@.len() == n && forall|k: int|
                0 <= k < n ==> #[trigger] v@[k] <= max,
            Err(e) => parsed(chars@, sep, radix as int, max as int, n as int) == Err::<
                Seq<int>,
                FieldsError,
            >(e),
        },
{
    let bounds = field_bounds(chars, sep);
    let ghost f = fields(chars@, sep);
    let mut values: Vec<u32> = Vec::new();
    let mut k: usize = 0;
    while k < bounds.len() && k < n
        invariant
            2 <= radix <= 16,
            max <= 0xffff,
            f == fields(chars@, sep),
            bounds@.len() == f.len(),
            forall|i: int|
                0 <= i < bounds@.len() ==> (#[trigger] bounds@[i]).0 <= bounds@[i].1 <= chars@.len()
                    && chars@.subrange(bounds@[i].0 as int, bounds@[i].1 as int) == f[i],
            k <= bounds@.len(),
            k <= n,
            values@.len() == k,
            forall|i: int|
                0 <= i < k ==> valid_component(#[trigger] f[i], radix as int, max as int)
                    && values@[i] == component_value(f[i], radix as int),
            forall|i: int| 0 <= i < k ==> #[trigger] values@[i] <= max,
        decreases bounds@.len() - k,
    {
        let (start, end) = bounds[k];
        assert(chars@.subrange(start as int, end as int) == f[k as int]);
        match parse_component(chars, start, end, radix, max) {
            Some(v) => {
                values.push(v);
            },
            None => {
                assert(!valid_component(f[k as int], radix as int, max as int));
                return Err(FieldsError::Invalid);
            },
        }
        k += 1;
    }
    assert(forall|i: int|
        0 <= i < f.len() && i < n ==> valid_component(#[trigger] f[i], radix as int, max as int));
    if bounds.len() > n {
        Err(FieldsError::TooMany)
    } else if bounds.len() < n {
        Err(FieldsError::TooFew)
    } else {
        assert(Seq::new(n as nat, |k: int| values@[k] as int) =~= Seq::new(
            n as nat,
            |k: int| component_value(f[k], radix as int),
        ));
        Ok(values)
    }
}

/// Two lower-case hexadecimal digits, for a value below 256.
pub open spec fn hex_pair(v: int) -> Seq<char> {
    seq![digit_char(v / 16), digit_char(v % 16)]
}

/// Four lower-case hexadecimal digits, for a value below 65536.
pub open spec fn hex_quad(v: int) -> Seq<char> {
    seq![
        digit_char(v / 4096),
        digit_char((v / 256) % 16),
        digit_char((v / 16) % 16),
        digit_char(v % 16),
    ]
}

/// The decimal digits of `v`, without leading zeros.
pub open spec fn decimal(v: int) -> Seq<char>
    decreases v,
{
    if v < 10 {
        seq![digit_char(v)]
    } else {
        decimal(v / 10).push(digit_char(v % 10))
    }
}

/// `sep` does not occur in `s`.
pub open spec fn free_of(s: Seq<char>, sep: char) -> bool {
    forall|i: int| 0 <= i < s.len() ==> #[trigger] s[i] != sep
}

/// `c` is one of `0`..`9`, `a`..`f`.
pub open spec fn is_lower_hex(c: char) -> bool {
    let u = c as u32;
    0x30 <= u <= 0x39 || 0x61 <= u <= 0x66
}

/// The text `t` is a component of value `v` that holds no separator.
#[verifier::opaque]
pub open spec fn writes(t: Seq<char>, v: int, sep: char, radix: int, max: int) -> bool {
    free_of(t, sep) && valid_component(t, radix, max) && component_value(t, radix) == v
}

/// Appends `hex_pair(v)` to `out`.
pub fn push_hex_pair(out: &mut String, v: u8)
    ensures
        final(out)@ == old(out)@ + hex_pair(v as int),
{
    out.push(digit_to_char(v / 16));
    out.push(digit_to_char(v % 16));
    assert(out@ =~= old(out)@ + hex_pair(v as int));
}

/// Appends `hex_quad(v)` to `out`.
pub fn push_hex_quad(out: &mut String, v: u16)
    ensures
        final(out)@ == old(out)@ + hex_quad(v as int),
{
    let a: u8 = (v / 4096) as u8;
    let b: u8 = ((v / 256) % 16) as u8;
    let c: u8 = ((v / 16) % 16) as u8;
    let d: u8 = (v % 16) as u8;
    out.push(digit_to_char(a));
    out.push(digit_to_char(b));
    out.push(digit_to_char(c));
    out.push(digit_to_char(d));
    assert(out@ =~= old(out)@ + hex_quad(v as int));
}

/// Appends `decimal(v)` to `out`.
pub fn push_decimal(out: &mut String, v: u8)
    ensures
        final(out)@ == old(out)@ + decimal(v as int),
{
    reveal_with_fuel(decimal, 3);
    if v >= 100 {
        out.push(digit_to_char(v / 100));
    }
    if v >= 10 {
        out.push(digit_to_char((v / 10) % 10));
    }
    out.push(digit_to_char(v % 10));
    assert(out@ =~= old(out)@ + decimal(v as int));
}

/// A text without separator is its own single field.
proof fn lemma_fields_single(t: Seq<char>, sep: char)
    requires
        free_of(t, sep),
    ensures
        fields(t, sep) == seq![t],
    decreases t.len(),
{
    if t.len() > 0 {
        lemma_fields_single(t.drop_last(), sep);
        assert(t.drop_last().push(t.last()) =~= t);
        assert(fields(t, sep) =~= seq![t]);
    } else {
        assert(t =~= Seq::<char>::empty());
    }
}

/// A separator and a run without separator add one field.
proof fn lemma_fields_append(s: Seq<char>, t: Seq<char>, sep: char)
    requires
        free_of(t, sep),
    ensures
        fields(s.push(sep) + t, sep) == fields(s, sep).push(t),
    decreases t.len(),
{
    let w = s.push(sep) + t;
    if t.len() == 0 {
        assert(w.drop_last() =~= s);
        assert(w.last() == sep);
        assert(t =~= Seq::<char>::empty());
    } else {
        lemma_fields_append(s, t.drop_last(), sep);
        assert(w.drop_last() =~= s.push(sep) + t.drop_last());
        assert(w.last() == t.last());
        assert(t.drop_last().push(t.last()) =~= t);
        assert(fields(w, sep) =~= fields(s, sep).push(t));
    }
}

/// The character of a digit reads back as the digit, and is neither a sign
/// nor a separator.
proof fn lemma_digit_char(d: int)
    requires
        0 <= d < 16,
    ensures
        digit_of(digit_char(d)) == d,
        digit_char(d) != ':',
        digit_char(d) != '.',
        digit_char(d) != '+',
{
}

/// One more digit multiplies the value by the radix and adds the digit.
proof fn lemma_digits_push(s: Seq<char>, c: char, radix: int)
    ensures
        digits_value(s.push(c), radix) == digits_value(s, radix) * radix + digit_of(c),
{
    assert(s.push(c).drop_last() =~= s);
}

/// A run of digits without a sign, none of them the separator, is a
/// component with the value of the digits.
proof fn lemma_digits_write(t: Seq<char>, v: int, sep: char, radix: int, max: int)
    requires
        t.len() > 0,
        t[0] != '+',
        all_digits(t, radix),
        free_of(t, sep),
        digits_value(t, radix) == v,
        v <= max,
    ensures
        writes(t, v, sep, radix, max),
{
    reveal(writes);
}

/// `hex_pair` writes a component that reads back as the same value.
pub proof fn lemma_hex_pair_reads_back(v: int)
    requires
        0 <= v <= 255,
    ensures
        writes(hex_pair(v), v, ':', 16, 255),
{
    let d0 = v / 16;
    let d1 = v % 16;
    let c0 = digit_char(d0);
    let c1 = digit_char(d1);
    lemma_digit_char(d0);
    lemma_digit_char(d1);
    let none = Seq::<char>::empty();
    let p = none.push(c0).push(c1);
    assert(hex_pair(v) =~= p);
    lemma_digits_push(none, c0, 16);
    lemma_digits_push(none.push(c0), c1, 16);
    assert(digits_value(none, 16) == 0);
    assert(digits_value(p, 16) == d0 * 16 + d1);
    assert(all_digits(p, 16)) by {
        assert forall|i: int| 0 <= i < p.len() implies digit_of(#[trigger] p[i]) < 16 by {
            assert(i == 0 || i == 1);
        }
    }
    assert(free_of(p, ':')) by {
        assert forall|i: int| 0 <= i < p.len() implies #[trigger] p[i] != ':' by {
            assert(i == 0 || i == 1);
        }
    }
    lemma_digits_write(p, v, ':', 16, 255);
}

/// The four hexadecimal digits of a value below 65536 make up the value.
proof fn lemma_quad_digits(v: int)
    requires
        0 <= v <= 0xffff,
    ensures
        0 <= v / 4096 < 16,
        (((v / 4096) * 16 + (v / 256) % 16) * 16 + (v / 16) % 16) * 16 + v % 16 == v,
{
}

/// `hex_quad` writes a component that reads back as the same value.
pub proof fn lemma_hex_quad_reads_back(v: int)
    requires
        0 <= v <= 0xffff,
    ensures
        writes(hex_quad(v), v, ':', 16, 0xffff),
{
    let d0 = v / 4096;
    let d1 = (v / 256) % 16;
    let d2 = (v / 16) % 16;
    let d3 = v % 16;
    lemma_quad_digits(v);
    let c0 = digit_char(d0);
    let c1 = digit_char(d1);
    let c2 = digit_char(d2);
    let c3 = digit_char(d3);
    lemma_digit_char(d0);
    lemma_digit_char(d1);
    lemma_digit_char(d2);
    lemma_digit_char(d3);
    let none = Seq::<char>::empty();
    let p = none.push(c0).push(c1).push(c2).push(c3);
    assert(hex_quad(v) =~= p);
    lemma_digits_push(none, c0, 16);
    lemma_digits_push(none.push(c0), c1, 16);
    lemma_digits_push(none.push(c0).push(c1), c2, 16);
    lemma_digits_push(none.push(c0).push(c1).push(c2), c3, 16);
    assert(digits_value(none, 16) == 0);
    assert(digits_value(p, 16) == ((d0 * 16 + d1) * 16 + d2) * 16 + d3);
    assert(all_digits(p, 16)) by {
        assert forall|i: int| 0 <= i < p.len() implies digit_of(#[trigger] p[i]) < 16 by {
            assert(i == 0 || i == 1 || i == 2 || i == 3);
        }
    }
    assert(free_of(p, ':')) by {
        assert forall|i: int| 0 <= i < p.len() implies #[trigger] p[i] != ':' by {
            assert(i == 0 || i == 1 || i == 2 || i == 3);
        }
    }
    lemma_digits_write(p, v, ':', 16, 0xffff);
}

/// `decimal` writes a component that reads back as the same value.
pub proof fn lemma_decimal_reads_back(v: int)
    requires
        0 <= v <= 255,
    ensures
        writes(decimal(v), v, '.', 10, 255),
{
    reveal(writes);
    lemma_decimal_digits(v);
    assert(unsigned(decimal(v)) == decimal(v));
}

/// The digits of `decimal(v)` are decimal digits whose value is `v`.
proof fn lemma_decimal_digits(v: int)
    requires
        0 <= v,
    ensures
        decimal(v).len() > 0,
        all_digits(decimal(v), 10),
        digits_value(decimal(v), 10) == v,
        free_of(decimal(v), '.'),
        free_of(decimal(v), '+'),
    decreases v,
{
    let t = decimal(v);
    if v < 10 {
        assert(t.drop_last() =~= Seq::<char>::empty());
        reveal_with_fuel(digits_value, 2);
        assert(digit_of(t[0]) == v);
    } else {
        lemma_decimal_digits(v / 10);
        assert(t.drop_last() =~= decimal(v / 10));
        assert(digit_of(t.last()) == v % 10);
    }
}

/// Two lower-case hexadecimal digits are the `hex_pair` of their value.
pub proof fn lemma_hex_pair_of_value(a: char, b: char)
    requires
        is_lower_hex(a),
        is_lower_hex(b),
    ensures
        valid_component(seq![a, b], 16, 255),
        0 <= component_value(seq![a, b], 16),
        hex_pair(component_value(seq![a, b], 16)) == seq![a, b],
        free_of(seq![a, b], ':'),
{
    assert(digit_char(digit_of(a)) == a && digit_char(digit_of(b)) == b);
    let none = Seq::<char>::empty();
    let p = none.push(a).push(b);
    assert(seq![a, b] =~= p);
    lemma_digits_push(none, a, 16);
    lemma_digits_push(none.push(a), b, 16);
    assert(digits_value(none, 16) == 0);
    let v = digit_of(a) * 16 + digit_of(b);
    assert(digits_value(p, 16) == v);
    assert(v / 16 == digit_of(a) && v % 16 == digit_of(b));
    assert(hex_pair(v) =~= p);
    lemma_hex_pair_reads_back(v);
    reveal(writes);
}

/// The parts written one after another with `sep` between them.
pub open spec fn joined(parts: Seq<Seq<char>>, sep: char) -> Seq<char>
    decreases parts.len(),
{
    if parts.len() == 0 {
        Seq::empty()
    } else if parts.len() == 1 {
        parts[0]
    } else {
        joined(parts.drop_last(), sep).push(sep) + parts.last()
    }
}

/// What one more part adds to the joined text of the first `i`.
pub proof fn lemma_joined_take(parts: Seq<Seq<char>>, i: int, sep: char)
    requires
        0 <= i < parts.len(),
    ensures
        joined(parts.take(i + 1), sep) == if i == 0 {
            parts[0]
        } else {
            joined(parts.take(i), sep).push(sep) + parts[i]
        },
{
    assert(parts.take(i + 1).drop_last() =~= parts.take(i));
    assert(parts.take(i + 1).last() == parts[i]);
}

/// Splitting undoes joining, where no part holds the separator.
pub proof fn lemma_fields_joined(parts: Seq<Seq<char>>, sep: char)
    requires
        parts.len() >= 1,
        forall|i: int| 0 <= i < parts.len() ==> free_of(#[trigger] parts[i], sep),
    ensures
        fields(joined(parts, sep), sep) == parts,
    decreases parts.len(),
{
    if parts.len() == 1 {
        lemma_fields_single(parts[0], sep);
        assert(seq![parts[0]] =~= parts);
    } else {
        let init = parts.drop_last();
        assert forall|i: int| 0 <= i < init.len() implies free_of(#[trigger] init[i], sep) by {
            assert(init[i] == parts[i]);
        }
        lemma_fields_joined(init, sep);
        lemma_fields_append(joined(init, sep), parts.last(), sep);
        assert(init.push(parts.last()) =~= parts);
    }
}

/// Joining undoes splitting.
pub proof fn lemma_joined_fields(s: Seq<char>, sep: char)
    ensures
        joined(fields(s, sep), sep) == s,
    decreases s.len(),
{
    if s.len() == 0 {
        assert(joined(fields(s, sep), sep) =~= s);
    } else {
        let before = fields(s.drop_last(), sep);
        lemma_joined_fields(s.drop_last(), sep);
        lemma_fields_nonempty(s.drop_last(), sep);
        let now = fields(s, sep);
        assert(s.drop_last().push(s.last()) =~= s);
        if s.last() == sep {
            assert(now.drop_last() =~= before);
            assert(joined(now, sep) =~= s);
        } else if before.len() == 1 {
            assert(joined(now, sep) =~= s);
        } else {
            assert(now.drop_last() =~= before.drop_last());
            assert(joined(now, sep) =~= s);
        }
    }
}

/// Components joined by the separator read back as their values.
pub proof fn lemma_parsed_joined(
    parts: Seq<Seq<char>>,
    values: Seq<int>,
    sep: char,
    radix: int,
    max: int,
)
    requires
        parts.len() >= 1,
        values.len() == parts.len(),
        forall|k: int|
            0 <= k < parts.len() ==> writes(#[trigger] parts[k], values[k], sep, radix, max),
    ensures
        parsed(joined(parts, sep), sep, radix, max, parts.len() as int) == Ok::<
            Seq<int>,
            FieldsError,
        >(values),
{
    reveal(writes);
    lemma_fields_joined(parts, sep);
    let f = fields(joined(parts, sep), sep);
    assert(f == parts);
    assert(forall|k: int| 0 <= k < f.len() ==> valid_component(#[trigger] f[k], radix, max));
    assert(Seq::new(parts.len(), |k: int| component_value(f[k], radix)) =~= values);
}

} // verus!
