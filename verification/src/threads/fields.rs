//! Splitting a line of a process table into its fields, and reading numbers.

use vstd::prelude::*;

verus! {

/// The characters that separate fields: those that Unicode classes as white
/// space. They are tab, line feed, vertical tab, form feed, carriage return
/// and space, next line and no-break space, and the spaces and separators of
/// the general punctuation and ideographic blocks.
pub open spec fn is_space(c: char) -> bool {
    let n = c as u32;
    (9 <= n && n <= 13) || n == 0x20 || n == 0x85 || n == 0xa0 || n == 0x1680 || (0x2000 <= n && n
        <= 0x200a) || n == 0x2028 || n == 0x2029 || n == 0x202f || n == 0x205f || n == 0x3000
}

/// The fields of `s` from index `i` on, each as the range of its characters.
/// A field is a longest run of characters that are not separators. `open` is the
/// start of the field that index `i` lies in, where it lies in one.
pub open spec fn fields_from(s: Seq<char>, i: int, open: Option<int>) -> Seq<(int, int)>
    decreases s.len() - i,
{
    if i >= s.len() {
        match open {
            Some(a) => seq![(a, s.len() as int)],
            None => Seq::empty(),
        }
    } else if is_space(s[i]) {
        match open {
            Some(a) => seq![(a, i)] + fields_from(s, i + 1, None),
            None => fields_from(s, i + 1, None),
        }
    } else {
        match open {
            Some(a) => fields_from(s, i + 1, open),
            None => fields_from(s, i + 1, Some(i)),
        }
    }
}

/// The fields of `s` that begin at or after `from`.
pub open spec fn fields_of(s: Seq<char>, from: int) -> Seq<(int, int)> {
    fields_from(s, from, None)
}

/// What holds of a field found from index `i` on: it is a run of characters
/// that are not separators, it ends at a separator or at the end of the text, and
/// it begins at or after `i` unless it is the field that was open there.
pub open spec fn is_field(s: Seq<char>, i: int, open: Option<int>, f: (int, int)) -> bool {
    &&& 0 <= f.0 < f.1 <= s.len()
    &&& forall|k: int| f.0 <= k < f.1 ==> !is_space(#[trigger] s[k])
    &&& (f.1 == s.len() || is_space(s[f.1]))
    &&& (f.0 >= i || open == Some(f.0))
}

/// Every field is a run of characters that are not separators, and it ends
/// at a separator or at the end of the text.
pub proof fn lemma_fields_from(s: Seq<char>, i: int, open: Option<int>)
    requires
        0 <= i <= s.len(),
        open.is_some() ==> 0 <= open.unwrap() < i && forall|k: int|
            open.unwrap() <= k < i ==> !is_space(#[trigger] s[k]),
    ensures
        forall|n: int|
            0 <= n < fields_from(s, i, open).len() ==> is_field(
                s,
                i,
                open,
                #[trigger] fields_from(s, i, open)[n],
            ),
    decreases s.len() - i,
{
    let all = fields_from(s, i, open);
    if i >= s.len() {
        assert forall|n: int| 0 <= n < all.len() implies is_field(s, i, open, #[trigger] all[n]) by {
            assert(open.is_some());
            assert(all[n] == (open.unwrap(), s.len() as int));
        }
    } else if is_space(s[i]) {
        let rest = fields_from(s, i + 1, None);
        lemma_fields_from(s, i + 1, None);
        assert forall|n: int| 0 <= n < all.len() implies is_field(s, i, open, #[trigger] all[n]) by {
            if open.is_some() {
                if n == 0 {
                    assert(all[n] == (open.unwrap(), i));
                } else {
                    assert(all[n] == rest[n - 1]);
                    assert(is_field(s, i + 1, None, rest[n - 1]));
                }
            } else {
                assert(all[n] == rest[n]);
                assert(is_field(s, i + 1, None, rest[n]));
            }
        }
    } else {
        let next = if open.is_some() {
            open
        } else {
            Some(i)
        };
        let rest = fields_from(s, i + 1, next);
        assert(all == rest);
        lemma_fields_from(s, i + 1, next);
        assert forall|n: int| 0 <= n < all.len() implies is_field(s, i, open, #[trigger] all[n]) by {
            assert(is_field(s, i + 1, next, rest[n]));
        }
    }
}

/// Whether a character separates fields.
pub fn is_space_char(c: char) -> (r: bool)
    ensures
        r == is_space(c),
{
    let n = c as u32;
    (9 <= n && n <= 13) || n == 0x20 || n == 0x85 || n == 0xa0 || n == 0x1680 || (0x2000 <= n && n
        <= 0x200a) || n == 0x2028 || n == 0x2029 || n == 0x202f || n == 0x205f || n == 0x3000
}

/// Splits the text from `from` on into its fields.
pub fn split_fields(text: &[char], from: usize) -> (r: Vec<(usize, usize)>)
    requires
        from <= text@.len(),
    ensures
        r@.len() == fields_of(text@, from as int).len(),
        forall|n: int|
            0 <= n < r@.len() ==> (#[trigger] r@[n]).0 == fields_of(text@, from as int)[n].0
                && r@[n].1 == fields_of(text@, from as int)[n].1,
        forall|n: int| 0 <= n < r@.len() ==> from <= (#[trigger] r@[n]).0 < r@[n].1 <= text@.len(),
{
    let mut out: Vec<(usize, usize)> = Vec::new();
    let mut i: usize = from;
    let mut open: Option<usize> = None;
    let ghost all = fields_of(text@, from as int);
    let ghost mapped = |p: (usize, usize)| (p.0 as int, p.1 as int);
    assert(out@.map_values(mapped) =~= Seq::<(int, int)>::empty());
    while i < text.len()
        invariant
            from <= i <= text@.len(),
            open.is_some() ==> from <= open.unwrap() < i && forall|k: int|
                open.unwrap() <= k < i ==> !is_space(#[trigger] text@[k]),
            mapped == |p: (usize, usize)| (p.0 as int, p.1 as int),
            all == out@.map_values(mapped) + fields_from(
                text@,
                i as int,
                match open {
                    Some(a) => Some(a as int),
                    None => None,
                },
            ),
            forall|n: int| 0 <= n < out@.len() ==> from <= (#[trigger] out@[n]).0 < out@[n].1 <= i,
        decreases text@.len() - i,
    {
        let ghost before = out@;
        if is_space_char(text[i]) {
            match open {
                Some(a) => {
                    out.push((a, i));
                    assert(out@.map_values(mapped) =~= before.map_values(mapped) + seq![
                        (a as int, i as int),
                    ]);
                    assert(all =~= out@.map_values(mapped) + fields_from(
                        text@,
                        i as int + 1,
                        None,
                    ));
                },
                None => {},
            }
            open = None;
        } else {
            if open.is_none() {
                open = Some(i);
            }
        }
        i = i + 1;
    }
    let ghost before = out@;
    match open {
        Some(a) => {
            out.push((a, i));
            assert(out@.map_values(mapped) =~= before.map_values(mapped) + seq![
                (a as int, i as int),
            ]);
        },
        None => {},
    }
    assert(all =~= out@.map_values(mapped));
    assert forall|n: int| 0 <= n < out@.len() implies (#[trigger] out@[n]).0 == all[n].0
        && out@[n].1 == all[n].1 by {
        assert(out@.map_values(mapped)[n] == mapped(out@[n]));
    }
    out
}

/// The decimal digits `0` to `9`.
pub open spec fn is_digit(c: char) -> bool {
    48 <= c as u32 && c as u32 <= 57
}

/// Whether every character is a decimal digit.
pub open spec fn all_digits(s: Seq<char>) -> bool {
    forall|k: int| 0 <= k < s.len() ==> is_digit(#[trigger] s[k])
}

/// The number that a run of decimal digits writes.
pub open spec fn digits_value(s: Seq<char>) -> nat
    decreases s.len(),
{
    if s.len() == 0 {
        0
    } else {
        digits_value(s.drop_last()) * 10 + (s.last() as u32 - 48) as nat
    }
}

/// The text without a leading plus sign.
pub open spec fn without_plus(s: Seq<char>) -> Seq<char> {
    if s.len() > 0 && s[0] == '+' {
        s.subrange(1, s.len() as int)
    } else {
        s
    }
}

/// The unsigned 64-bit number that a text writes: an optional plus sign and
/// then one or more decimal digits, whose value fits. Anything else writes
/// no number.
pub open spec fn parsed_u64(s: Seq<char>) -> Option<u64> {
    let d = without_plus(s);
    if d.len() > 0 && all_digits(d) && digits_value(d) <= u64::MAX {
        Some(digits_value(d) as u64)
    } else {
        None
    }
}

/// A run of digits writes at least what any of its beginnings writes.
pub proof fn lemma_digits_prefix(s: Seq<char>, j: int)
    requires
        0 <= j <= s.len(),
        all_digits(s),
    ensures
        digits_value(s.take(j)) <= digits_value(s),
    decreases s.len() - j,
{
    if j < s.len() {
        assert(s.take(j + 1).drop_last() =~= s.take(j));
        assert(s.take(j + 1).last() == s[j]);
        assert(is_digit(s[j]));
        lemma_digits_prefix(s, j + 1);
    } else {
        assert(s.take(j) =~= s);
    }
}

/// Reads the unsigned number written by the characters from `from` up to
/// `to`.
pub fn parse_u64(text: &[char], from: usize, to: usize) -> (r: Option<u64>)
    requires
        from <= to <= text@.len(),
    ensures
        r == parsed_u64(text@.subrange(from as int, to as int)),
{
    let ghost whole = text@.subrange(from as int, to as int);
    let mut i: usize = from;
    if i < to && text[i] == '+' {
        i = i + 1;
    }
    let start = i;
    let ghost d = without_plus(whole);
    assert(d =~= text@.subrange(start as int, to as int));
    if i == to {
        return None;
    }
    let mut acc: u64 = 0;
    assert(d.take(0) =~= Seq::<char>::empty());
    while i < to
        invariant
            from <= start <= i <= to <= text@.len(),
            d == text@.subrange(start as int, to as int),
            d == without_plus(text@.subrange(from as int, to as int)),
            all_digits(d.take(i - start)),
            acc == digits_value(d.take(i - start)),
        decreases to - i,
    {
        let b: u32 = text[i] as u32;
        let ghost k = i - start;
        assert(d[k] == text@[i as int]);
        assert(d.take(k + 1).drop_last() =~= d.take(k));
        assert(d.take(k + 1).last() == text@[i as int]);
        if !(48 <= b && b <= 57) {
            assert(!all_digits(d));
            return None;
        }
        assert(all_digits(d.take(k + 1))) by {
            assert forall|n: int| 0 <= n < d.take(k + 1).len() implies is_digit(
                #[trigger] d.take(k + 1)[n],
            ) by {
                if n < k {
                    assert(d.take(k)[n] == d.take(k + 1)[n]);
                }
            }
        }
        let digit: u64 = (b - 48) as u64;
        if acc > (u64::MAX - digit) / 10 {
            proof {
                if all_digits(d) {
                    lemma_digits_prefix(d, k + 1);
                }
            }
            return None;
        }
        acc = acc * 10 + digit;
        i = i + 1;
    }
    assert(d.take(i - start) =~= d);
    Some(acc)
}

} // verus!
