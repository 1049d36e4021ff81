use vstd::prelude::*;
use super::position::Position;
use crate::text::{decimal, digit_char, push_decimal, text};

verus! {

/// The text under which a board position is stored: row and column in
/// decimal, separated by a comma, such as `"9,4"`.
pub open spec fn key_text(p: Position) -> Seq<char> {
    decimal(p.row as nat) + ","@ + decimal(p.col as nat)
}

/// `c` is one of the digits 0 to 9.
pub open spec fn is_digit(c: char) -> bool {
    '0' <= c <= '9'
}

/// The value of a string of decimal digits.
pub open spec fn digits_value(d: Seq<char>) -> nat
    decreases d.len(),
{
    if d.len() == 0 {
        0
    } else {
        digits_value(d.drop_last()) * 10 + ((d.last() as nat) - ('0' as nat)) as nat
    }
}

/// The digits part of a number's text: what follows an optional `+`.
pub open spec fn unsigned_part(t: Seq<char>) -> Seq<char> {
    if t.len() > 0 && t[0] == '+' {
        t.drop_first()
    } else {
        t
    }
}

/// The `u8` written by the digits `d`: at least one decimal digit, with a
/// value of at most 255; nothing otherwise.
pub open spec fn digits_u8(d: Seq<char>) -> Option<u8> {
    if d.len() == 0 || exists|i: int| 0 <= i < d.len() && !is_digit(#[trigger] d[i]) {
        None
    } else if digits_value(d) > 255 {
        None
    } else {
        Some(digits_value(d) as u8)
    }
}

/// What reading `t` as a `u8` gives: an optional `+` and then at least one
/// decimal digit, with a value of at most 255; nothing otherwise.
pub open spec fn parse_u8_text(t: Seq<char>) -> Option<u8> {
    digits_u8(unsigned_part(t))
}

/// The number of commas in `s`.
pub open spec fn comma_count(s: Seq<char>) -> nat
    decreases s.len(),
{
    if s.len() == 0 {
        0
    } else {
        comma_count(s.drop_last()) + if s.last() == ',' {
            1nat
        } else {
            0nat
        }
    }
}

/// The position a stored key stands for: exactly two parts around one comma,
/// each read as a `u8`; nothing for any other text.
pub open spec fn key_position(s: Seq<char>) -> Option<Position> {
    if comma_count(s) != 1 {
        None
    } else {
        let i = choose|i: int| 0 <= i < s.len() && s[i] == ',';
        match (parse_u8_text(s.take(i)), parse_u8_text(s.skip(i + 1))) {
            (Some(r), Some(c)) => Some(Position { row: r, col: c }),
            _ => None,
        }
    }
}

proof fn lemma_comma_count_split(s: Seq<char>, i: int)
    requires
        0 <= i <= s.len(),
    ensures
        comma_count(s) == comma_count(s.take(i)) + comma_count(s.skip(i)),
    decreases s.len(),
{
    if i == s.len() {
        assert(s.take(i) =~= s);
        assert(s.skip(i) =~= Seq::<char>::empty());
    } else {
        let t = s.drop_last();
        lemma_comma_count_split(t, i);
        assert(t.take(i) =~= s.take(i));
        assert(s.skip(i).drop_last() =~= t.skip(i));
        assert(s.skip(i).last() == s.last());
    }
}

proof fn lemma_comma_count_one(c: char)
    ensures
        comma_count(seq![c]) == if c == ',' {
            1nat
        } else {
            0nat
        },
{
    assert(seq![c].drop_last() =~= Seq::<char>::empty());
    assert(comma_count(Seq::<char>::empty()) == 0);
}

proof fn lemma_no_commas(s: Seq<char>)
    requires
        forall|i: int| 0 <= i < s.len() ==> s[i] != ',',
    ensures
        comma_count(s) == 0,
    decreases s.len(),
{
    if s.len() > 0 {
        lemma_no_commas(s.drop_last());
    }
}

proof fn lemma_one_comma_at(s: Seq<char>, i: int)
    requires
        comma_count(s) == 1,
        0 <= i < s.len(),
        s[i] == ',',
    ensures
        forall|j: int| 0 <= j < s.len() && s[j] == ',' ==> j == i,
{
    assert forall|j: int| 0 <= j < s.len() && s[j] == ',' implies j == i by {
        if j != i {
            let (a, b) = if i < j {
                (i, j)
            } else {
                (j, i)
            };
            lemma_comma_count_split(s, a);
            lemma_comma_count_split(s.skip(a), 1);
            assert(s.skip(a).take(1) =~= seq![s[a]]);
            lemma_comma_count_one(s[a]);
            lemma_comma_count_split(s.skip(a).skip(1), b - a - 1);
            let rest = s.skip(a).skip(1).skip(b - a - 1);
            assert(rest.take(1) =~= seq![s[b]]);
            lemma_comma_count_one(s[b]);
            lemma_comma_count_split(rest, 1);
        }
    }
}

/// The decimal notation of a number is a nonempty string of digits, without
/// commas or sign, whose value is the number.
pub proof fn lemma_decimal_digits(n: nat)
    ensures
        decimal(n).len() >= 1,
        forall|i: int| 0 <= i < decimal(n).len() ==> is_digit(#[trigger] decimal(n)[i]),
        digits_value(decimal(n)) == n,
    decreases n,
{
    let k = n % 10;
    assert(k < 10);
    assert((digit_char(k) as nat) == 48 + k);
    if n >= 10 {
        lemma_decimal_digits(n / 10);
        let d = decimal(n);
        assert(d.drop_last() =~= decimal(n / 10));
        assert(d.last() == digit_char(k));
        assert((n / 10) * 10 + k == n);
    } else {
        assert(decimal(n).drop_last() =~= Seq::<char>::empty());
        assert(decimal(n)[0] == digit_char(n));
        assert(digits_value(Seq::<char>::empty()) == 0);
    }
}

/// Reading back the key of a position gives the position.
pub proof fn lemma_key_round_trip(p: Position)
    ensures
        key_position(key_text(p)) == Some(p),
{
    reveal_strlit(",");
    let r = decimal(p.row as nat);
    let c = decimal(p.col as nat);
    let s = key_text(p);
    lemma_decimal_digits(p.row as nat);
    lemma_decimal_digits(p.col as nat);
    let i = r.len() as int;
    assert(s[i] == ',');
    assert(s.take(i) =~= r);
    assert(s.skip(i + 1) =~= c);
    lemma_comma_count_split(s, i);
    lemma_no_commas(r);
    lemma_comma_count_split(s.skip(i), 1);
    assert(s.skip(i).take(1) =~= seq![',']);
    lemma_comma_count_one(',');
    assert(s.skip(i).skip(1) =~= c);
    lemma_no_commas(c);
    assert(comma_count(s) == 1);
    let k = choose|k: int| 0 <= k < s.len() && s[k] == ',';
    lemma_one_comma_at(s, i);
    assert(k == i);
    assert(parse_u8_text(r) == Some(p.row));
    assert(parse_u8_text(c) == Some(p.col));
}

proof fn lemma_digits_value_prefix(d: Seq<char>, k: int)
    requires
        0 <= k <= d.len(),
        forall|i: int| 0 <= i < d.len() ==> is_digit(#[trigger] d[i]),
    ensures
        digits_value(d.take(k)) <= digits_value(d),
    decreases d.len(),
{
    if k < d.len() {
        let t = d.drop_last();
        lemma_digits_value_prefix(t, k);
        assert(t.take(k) =~= d.take(k));
        assert(is_digit(d[d.len() - 1]));
    } else {
        assert(d.take(k) =~= d);
    }
}

/// Reads `key@[from..to]` as a `u8` the way `str::parse::<u8>` does.
fn parse_u8_range(key: &str, from: usize, to: usize) -> (r: Option<u8>)
    requires
        from <= to <= key@.len(),
    ensures
        r == parse_u8_text(key@.subrange(from as int, to as int)),
{
    let ghost t = key@.subrange(from as int, to as int);
    let mut start = from;
    if from < to && key.get_char(from) == '+' {
        start = from + 1;
    }
    let ghost d = key@.subrange(start as int, to as int);
    assert(d =~= unsigned_part(t));
    if start == to {
        return None;
    }
    let mut v: u32 = 0;
    let mut j = start;
    assert(d.take(0) =~= Seq::<char>::empty());
    while j < to
        invariant
            from <= start <= j <= to <= key@.len(),
            start < to,
            d == key@.subrange(start as int, to as int),
            t == key@.subrange(from as int, to as int),
            d == unsigned_part(t),
            forall|i: int| 0 <= i < j - start ==> is_digit(#[trigger] d[i]),
            v == digits_value(d.take(j - start)),
            v <= 255,
        decreases to - j,
    {
        let c = key.get_char(j);
        assert(c == d[j - start]);
        if !('0' <= c && c <= '9') {
            assert(!is_digit(d[j - start]));
            return None;
        }
        let digit = (c as u32) - ('0' as u32);
        v = v * 10 + digit;
        proof {
            let p = d.take(j - start + 1);
            assert(p.drop_last() =~= d.take(j - start));
            assert(p.last() == c);
        }
        if v > 255 {
            proof {
                if forall|i: int| 0 <= i < d.len() ==> is_digit(#[trigger] d[i]) {
                    lemma_digits_value_prefix(d, j - start + 1);
                }
            }
            return None;
        }
        j = j + 1;
    }
    assert(d.take(j - start) =~= d);
    Some(v as u8)
}

impl Position {
    /// The position stored under `key`, read the way a saved board is read
    /// back: two parts around a single comma, each a `u8`; nothing otherwise.
    pub fn from_key(key: &str) -> (r: Option<Position>)
        ensures
            r == key_position(key@),
    {
        let n = key.unicode_len();
        let mut comma: Option<usize> = None;
        let mut j: usize = 0;
        while j < n
            invariant
                j <= n == key@.len(),
                comma_count(key@.take(j as int)) == if comma is Some {
                    1nat
                } else {
                    0nat
                },
                comma matches Some(i) ==> i < j && key@[i as int] == ',',
            decreases n - j,
        {
            let c = key.get_char(j);
            proof {
                lemma_comma_count_split(key@.take(j + 1), j as int);
                assert(key@.take(j + 1).take(j as int) =~= key@.take(j as int));
                assert(key@.take(j + 1).skip(j as int) =~= seq![c]);
                lemma_comma_count_one(c);
            }
            if c == ',' {
                if comma.is_some() {
                    proof {
                        lemma_comma_count_split(key@, j + 1);
                        assert(key@.take(j + 1).len() == j + 1);
                    }
                    return None;
                }
                comma = Some(j);
            }
            j = j + 1;
        }
        assert(key@.take(n as int) =~= key@);
        match comma {
            None => None,
            Some(i) => {
                proof {
                    lemma_one_comma_at(key@, i as int);
                    let k = choose|k: int| 0 <= k < key@.len() && key@[k] == ',';
                    assert(k == i);
                    assert(key@.take(i as int) =~= key@.subrange(0, i as int));
                    assert(key@.skip(i + 1) =~= key@.subrange(i + 1, n as int));
                }
                let row = parse_u8_range(key, 0, i);
                let col = parse_u8_range(key, i + 1, n);
                match (row, col) {
                    (Some(r), Some(c)) => Some(Position { row: r, col: c }),
                    _ => None,
                }
            },
        }
    }

    /// The key under which this position is stored, such as `"9,4"`.
    pub fn to_key(&self) -> (s: String)
        ensures
            s@ == key_text(*self),
    {
        let mut s = text("");
        push_decimal(&mut s, self.row);
        s.append(",");
        push_decimal(&mut s, self.col);
        proof {
            reveal_strlit("");
            reveal_strlit(",");
        }
        s
    }
}

} // verus!
