//! Characters, decimal numbers and comma-separated lists of ids.

use itertools::Itertools;
use vstd::prelude::*;

verus! {

/// Trusted, not proved: `String::push` appends one character to the string.
pub assume_specification[ String::push ](s: &mut String, c: char)
    ensures
        final(s)@ == old(s)@.push(c),
;

/// The characters of a string slice, in order.
pub fn chars_of(s: &str) -> (v: Vec<char>)
    ensures
        v@ == s@,
{
    let mut v: Vec<char> = Vec::new();
    for c in it: s.chars()
        invariant
            it.seq() == s@,
            v@ == s@.take(it.index()),
    {
        v.push(c);
        assert(s@.take(it.index() + 1) == s@.take(it.index()).push(s@[it.index()]));
    }
    assert(s@.take(s@.len() as int) == s@);
    v
}

/// The string made of the given characters, in order.
pub fn string_of(v: &Vec<char>) -> (s: String)
    ensures
        s@ == v@,
{
    let mut s = String::new();
    let mut i: usize = 0;
    while i < v.len()
        invariant
            i <= v.len(),
            s@ == v@.take(i as int),
        decreases v.len() - i,
    {
        s.push(v[i]);
        assert(v@.take(i + 1) == v@.take(i as int).push(v@[i as int]));
        i += 1;
    }
    assert(v@.take(v@.len() as int) == v@);
    s
}

/// Whether two texts hold the same characters.
#[verifier::loop_isolation(false)]
pub fn same_text(a: &str, b: &str) -> (same: bool)
    ensures
        same == (a@ == b@),
{
    let x = chars_of(a);
    let y = chars_of(b);
    if x.len() != y.len() {
        return false;
    }
    let mut i: usize = 0;
    while i < x.len()
        invariant
            i <= x.len(),
            x.len() == y.len(),
            forall|j: int| 0 <= j < i ==> x[j] == y[j],
        decreases x.len() - i,
    {
        if x[i] != y[i] {
            return false;
        }
        i += 1;
    }
    assert(x@ =~= y@);
    true
}

/// Whether `c` is one of the ten decimal digits.
pub open spec fn is_digit(c: char) -> bool {
    48 <= c as u32 && c as u32 <= 57
}

/// The character that writes the digit `d`.
pub open spec fn digit_char(d: int) -> char {
    (d + 48) as u8 as char
}

/// The number that a run of digits writes, most significant digit first.
pub open spec fn digits_value(s: Seq<char>) -> int
    decreases s.len(),
{
    if s.len() == 0 {
        0
    } else {
        digits_value(s.drop_last()) * 10 + (s.last() as u32 - 48)
    }
}

/// Whether every character of `s` is a digit.
pub open spec fn all_digits(s: Seq<char>) -> bool {
    forall|i: int| 0 <= i < s.len() ==> is_digit(#[trigger] s[i])
}

/// What follows the optional sign.
pub open spec fn number_body(s: Seq<char>) -> Seq<char> {
    if s.len() > 0 && (s[0] == '-' || s[0] == '+') {
        s.skip(1)
    } else {
        s
    }
}

/// The number that `s` writes when it is a signed run of digits.
pub open spec fn signed_value(s: Seq<char>) -> int {
    if s.len() > 0 && s[0] == '-' {
        -digits_value(number_body(s))
    } else {
        digits_value(number_body(s))
    }
}

/// A decimal `i64`: an optional `+` or `-`, then at least one digit and
/// nothing else, the value within the type's range.
pub open spec fn parse_i64_spec(s: Seq<char>) -> Option<i64> {
    if number_body(s).len() > 0 && all_digits(number_body(s)) && i64::MIN <= signed_value(s)
        <= i64::MAX {
        Some(signed_value(s) as i64)
    } else {
        None
    }
}

/// Reads a decimal `i64` from the characters of `v`.
#[verifier::loop_isolation(false)]
pub fn parse_i64_chars(v: &Vec<char>) -> (r: Option<i64>)
    ensures
        r == parse_i64_spec(v@),
{
    let n = v.len();
    if n == 0 {
        return None;
    }
    let negative = v[0] == '-';
    let start: usize = if v[0] == '-' || v[0] == '+' {
        1
    } else {
        0
    };
    if start == n {
        return None;
    }
    let ghost body = number_body(v@);
    let mut mag: u64 = 0;
    let mut over = false;
    let mut i: usize = start;
    while i < n
        invariant
            start <= i <= n,
            n == v.len(),
            body == v@.skip(start as int),
            forall|j: int| 0 <= j < i - start ==> is_digit(#[trigger] body[j]),
            !over ==> mag == digits_value(body.take(i - start)) && mag <= 9223372036854775808,
            over ==> digits_value(body.take(i - start)) > 9223372036854775808,
        decreases n - i,
    {
        let cu = v[i] as u32;
        if cu < 48 || cu > 57 {
            assert(!is_digit(body[i - start]));
            return None;
        }
        let d = (cu - 48) as u64;
        proof {
            let p = body.take(i + 1 - start);
            assert(p.drop_last() == body.take(i - start));
            assert(p.last() == v@[i as int]);
        }
        if !over {
            if mag > 922337203685477580 {
                over = true;
            } else {
                let next = mag * 10 + d;
                if next > 9223372036854775808 {
                    over = true;
                } else {
                    mag = next;
                }
            }
        }
        i += 1;
    }
    assert(body.take(n - start) == body);
    if over {
        None
    } else if negative {
        if mag == 9223372036854775808 {
            Some(i64::MIN)
        } else {
            Some(-(mag as i64))
        }
    } else if mag > 9223372036854775807 {
        None
    } else {
        Some(mag as i64)
    }
}

/// Reads a decimal `i64` from `s`.
pub fn parse_i64(s: &str) -> (r: Option<i64>)
    ensures
        r == parse_i64_spec(s@),
{
    let v = chars_of(s);
    parse_i64_chars(&v)
}

/// The digits of `n`, most significant first, without leading zeros.
pub open spec fn nat_digits(n: nat) -> Seq<char>
    decreases n,
{
    if n < 10 {
        seq![digit_char(n as int)]
    } else {
        nat_digits(n / 10).push(digit_char((n % 10) as int))
    }
}

/// How an integer is written in decimal: a `-` before a negative number.
pub open spec fn decimal(v: int) -> Seq<char> {
    if v < 0 {
        seq!['-'] + nat_digits((-v) as nat)
    } else {
        nat_digits(v as nat)
    }
}

/// Appends the digits of `n` to `out`.
pub fn push_digits(n: u64, out: &mut Vec<char>)
    ensures
        final(out)@ == old(out)@ + nat_digits(n as nat),
    decreases n,
{
    if n >= 10 {
        push_digits(n / 10, out);
    }
    let d = (n % 10) as u8;
    out.push((d + 48) as char);
}

/// The decimal form of `v`.
pub fn i64_to_chars(v: i64) -> (out: Vec<char>)
    ensures
        out@ == decimal(v as int),
{
    let mut out: Vec<char> = Vec::new();
    if v < 0 {
        out.push('-');
        let mag: u64 = if v == i64::MIN {
            9223372036854775808
        } else {
            (-v) as u64
        };
        push_digits(mag, &mut out);
    } else {
        push_digits(v as u64, &mut out);
    }
    out
}

/// The decimal form of `v`, as a string.
pub fn i64_to_string(v: i64) -> (s: String)
    ensures
        s@ == decimal(v as int),
{
    let chars = i64_to_chars(v);
    string_of(&chars)
}

/// The decimal form of `v`, as a string.
pub fn u64_to_string(v: u64) -> (s: String)
    ensures
        s@ == decimal(v as int),
{
    let mut chars: Vec<char> = Vec::new();
    push_digits(v, &mut chars);
    string_of(&chars)
}

/// The parts in order, with `sep` between each two neighbours.
pub open spec fn joined(parts: Seq<Seq<char>>, sep: Seq<char>) -> Seq<char>
    decreases parts.len(),
{
    if parts.len() == 0 {
        Seq::empty()
    } else if parts.len() == 1 {
        parts[0]
    } else {
        joined(parts.drop_last(), sep) + sep + parts.last()
    }
}

/// The characters of each string.
pub open spec fn views_of(parts: Seq<String>) -> Seq<Seq<char>> {
    Seq::new(parts.len(), |i: int| parts[i]@)
}

/// Trusted, not proved: calls `itertools::Itertools::join` on the strings of
/// `parts`. The result holds each part as it is written, in order, and `sep`
/// between each two neighbours; for no parts it is empty.
#[verifier::external_body]
fn join_strings(parts: &Vec<String>, sep: &str) -> (out: String)
    ensures
        out@ == joined(views_of(parts@), sep@),
{
    parts.iter().join(sep)
}

/// How a list of ids is stored: each in decimal, a comma between neighbours.
pub open spec fn ids_text(ids: Seq<i64>) -> Seq<char> {
    joined(Seq::new(ids.len(), |i: int| decimal(ids[i] as int)), seq![','])
}

/// Writes a list of ids as text.
pub fn join_ids(ids: &Vec<i64>) -> (out: String)
    ensures
        out@ == ids_text(ids@),
{
    let mut parts: Vec<String> = Vec::new();
    let mut i: usize = 0;
    while i < ids.len()
        invariant
            i <= ids.len(),
            parts.len() == i,
            forall|j: int| 0 <= j < i ==> (#[trigger] parts[j])@ == decimal(ids[j] as int),
        decreases ids.len() - i,
    {
        parts.push(i64_to_string(ids[i]));
        i += 1;
    }
    proof {
        reveal_strlit(",");
        assert(","@ == seq![',']);
        assert(views_of(parts@) == Seq::new(ids@.len(), |i: int| decimal(ids@[i] as int)));
    }
    join_strings(&parts, ",")
}

/// The pieces that the separator cuts `s` into; there is always one more piece
/// than there are separators in `s`, so an empty text is one empty piece.
pub open spec fn pieces(s: Seq<char>, sep: char) -> Seq<Seq<char>>
    decreases s.len(),
{
    if s.len() == 0 {
        seq![Seq::empty()]
    } else {
        let before = pieces(s.drop_last(), sep);
        if s.last() == sep {
            before.push(Seq::empty())
        } else {
            before.drop_last().push(before.last().push(s.last()))
        }
    }
}

/// The numbers among the pieces, in order; a piece that is no decimal `i64`
/// is passed over.
pub open spec fn parsed_ids(parts: Seq<Seq<char>>) -> Seq<i64>
    decreases parts.len(),
{
    if parts.len() == 0 {
        Seq::empty()
    } else {
        match parse_i64_spec(parts.last()) {
            Some(v) => parsed_ids(parts.drop_last()).push(v),
            None => parsed_ids(parts.drop_last()),
        }
    }
}

/// The ids that a stored list holds.
pub open spec fn ids_of_text(s: Seq<char>) -> Seq<i64> {
    parsed_ids(pieces(s, ','))
}

/// Reads a stored list of ids.
pub fn parse_ids(s: &str) -> (ids: Vec<i64>)
    ensures
        ids@ == ids_of_text(s@),
{
    let v = chars_of(s);
    let mut ids: Vec<i64> = Vec::new();
    let mut cur: Vec<char> = Vec::new();
    let ghost mut done: Seq<Seq<char>> = Seq::empty();
    let mut i: usize = 0;
    while i < v.len()
        invariant
            i <= v.len(),
            v@ == s@,
            pieces(s@.take(i as int), ',') == done.push(cur@),
            ids@ == parsed_ids(done),
        decreases v.len() - i,
    {
        let c = v[i];
        proof {
            assert(s@.take(i + 1).drop_last() == s@.take(i as int));
            assert(s@.take(i + 1).last() == c);
            assert(done.push(cur@).drop_last() == done);
            assert(done.push(cur@).last() == cur@);
        }
        if c == ',' {
            match parse_i64_chars(&cur) {
                Some(id) => ids.push(id),
                None => {},
            }
            proof {
                done = done.push(cur@);
            }
            cur = Vec::new();
        } else {
            cur.push(c);
        }
        i += 1;
    }
    proof {
        assert(s@.take(v.len() as int) == s@);
        assert(done.push(cur@).drop_last() == done);
        assert(done.push(cur@).last() == cur@);
    }
    match parse_i64_chars(&cur) {
        Some(id) => ids.push(id),
        None => {},
    }
    ids
}


/// The digits of a number are digits, and they write that number.
pub proof fn lemma_nat_digits(n: nat)
    ensures
        nat_digits(n).len() > 0,
        all_digits(nat_digits(n)),
        digits_value(nat_digits(n)) == n,
    decreases n,
{
    if n < 10 {
        let s = nat_digits(n);
        assert(s.drop_last() =~= Seq::<char>::empty());
        assert(digits_value(s.drop_last()) == 0);
        assert(s.last() as u32 == n + 48);
    } else {
        lemma_nat_digits(n / 10);
        let s = nat_digits(n);
        assert(s.drop_last() =~= nat_digits(n / 10));
        assert(s.last() as u32 == n % 10 + 48);
        assert forall|i: int| 0 <= i < s.len() implies is_digit(#[trigger] s[i]) by {
            if i < s.len() - 1 {
                assert(s[i] == nat_digits(n / 10)[i]);
            }
        }
    }
}

/// Reading the decimal form of an `i64` gives the number back.
pub proof fn lemma_parse_decimal(v: i64)
    ensures
        parse_i64_spec(decimal(v as int)) == Some(v),
{
    let s = decimal(v as int);
    if v < 0 {
        let d = nat_digits((-v) as nat);
        lemma_nat_digits((-v) as nat);
        assert(s[0] == '-');
        assert(s.skip(1) =~= d);
    } else {
        let d = nat_digits(v as nat);
        lemma_nat_digits(v as nat);
        assert(is_digit(d[0]));
    }
}

/// The decimal form of a number holds no comma.
pub proof fn lemma_decimal_has_no_comma(v: int)
    ensures
        !decimal(v).contains(','),
{
    let s = decimal(v);
    if s.contains(',') {
        let i = choose|i: int| 0 <= i < s.len() && s[i] == ',';
        if v < 0 {
            lemma_nat_digits((-v) as nat);
            if i > 0 {
                assert(s[i] == nat_digits((-v) as nat)[i - 1]);
                assert(is_digit(nat_digits((-v) as nat)[i - 1]));
            }
        } else {
            lemma_nat_digits(v as nat);
            assert(is_digit(nat_digits(v as nat)[i]));
        }
    }
}

/// A text is cut into at least one piece.
pub proof fn lemma_pieces_nonempty(s: Seq<char>, sep: char)
    ensures
        pieces(s, sep).len() >= 1,
    decreases s.len(),
{
    if s.len() > 0 {
        lemma_pieces_nonempty(s.drop_last(), sep);
    }
}

/// Characters other than the separator, added at the end of a text, all go
/// to its last piece.
pub proof fn lemma_pieces_grow(a: Seq<char>, b: Seq<char>, sep: char)
    requires
        !b.contains(sep),
    ensures
        pieces(a + b, sep) == pieces(a, sep).drop_last().push(pieces(a, sep).last() + b),
    decreases b.len(),
{
    lemma_pieces_nonempty(a, sep);
    let before = pieces(a, sep);
    if b.len() == 0 {
        assert(a + b =~= a);
        assert(before.last() + b =~= before.last());
        assert(before.drop_last().push(before.last()) =~= before);
    } else {
        let head = b.drop_last();
        assert(!head.contains(sep)) by {
            if head.contains(sep) {
                let i = choose|i: int| 0 <= i < head.len() && head[i] == sep;
                assert(b[i] == sep);
            }
        }
        assert(b.last() != sep) by {
            assert(b[b.len() - 1] == b.last());
        }
        lemma_pieces_grow(a, head, sep);
        assert((a + b).drop_last() =~= a + head);
        assert((a + b).last() == b.last());
        let mid = pieces(a + head, sep);
        assert(mid.drop_last() =~= before.drop_last());
        assert(mid.last() == before.last() + head);
        assert((before.last() + head).push(b.last()) =~= before.last() + b);
    }
}

/// Cutting a joined text at the separator gives the parts back, when there
/// is at least one part and none holds the separator.
pub proof fn lemma_pieces_of_joined(parts: Seq<Seq<char>>, sep: char)
    requires
        parts.len() >= 1,
        forall|i: int| 0 <= i < parts.len() ==> !(#[trigger] parts[i]).contains(sep),
    ensures
        pieces(joined(parts, seq![sep]), sep) == parts,
    decreases parts.len(),
{
    let empty = Seq::<char>::empty();
    assert(pieces(empty, sep) =~= seq![empty]);
    if parts.len() == 1 {
        lemma_pieces_grow(empty, parts[0], sep);
        assert(empty + parts[0] =~= parts[0]);
        assert(pieces(empty, sep).drop_last().push(empty + parts[0]) =~= parts);
    } else {
        let head = parts.drop_last();
        assert forall|i: int| 0 <= i < head.len() implies !(#[trigger] head[i]).contains(sep) by {
            assert(head[i] == parts[i]);
        }
        lemma_pieces_of_joined(head, sep);
        let text = joined(head, seq![sep]);
        let cut = text + seq![sep];
        assert(cut.drop_last() =~= text);
        assert(cut.last() == sep);
        assert(pieces(cut, sep) == head.push(empty));
        lemma_pieces_grow(cut, parts.last(), sep);
        assert(joined(parts, seq![sep]) =~= cut + parts.last());
        assert(empty + parts.last() =~= parts.last());
        assert(head.push(empty).drop_last() =~= head);
        assert(head.push(parts.last()) =~= parts);
    }
}

/// Reading the decimal forms of numbers gives the numbers back.
pub proof fn lemma_parsed_decimals(ids: Seq<i64>)
    ensures
        parsed_ids(Seq::new(ids.len(), |i: int| decimal(ids[i] as int))) == ids,
    decreases ids.len(),
{
    let parts = Seq::new(ids.len(), |i: int| decimal(ids[i] as int));
    if ids.len() == 0 {
        assert(parsed_ids(parts) =~= ids);
    } else {
        let head = ids.drop_last();
        lemma_parsed_decimals(head);
        assert(parts.drop_last() =~= Seq::new(head.len(), |i: int| decimal(head[i] as int)));
        lemma_parse_decimal(ids.last());
        assert(parts.last() == decimal(ids.last() as int));
        assert(head.push(ids.last()) =~= ids);
    }
}

/// A list of ids that is written as text and read again is the same list.
pub proof fn lemma_ids_round_trip(ids: Seq<i64>)
    ensures
        ids_of_text(ids_text(ids)) == ids,
{
    let parts = Seq::new(ids.len(), |i: int| decimal(ids[i] as int));
    if ids.len() == 0 {
        let empty = Seq::<char>::empty();
        assert(ids_text(ids) =~= empty);
        assert(pieces(empty, ',') =~= seq![empty]);
        assert(pieces(empty, ',').drop_last() =~= Seq::<Seq<char>>::empty());
        assert(parse_i64_spec(empty) is None);
        assert(parsed_ids(pieces(empty, ',').drop_last()) =~= Seq::<i64>::empty());
        assert(ids_of_text(ids_text(ids)) =~= ids);
    } else {
        assert forall|i: int| 0 <= i < parts.len() implies !(#[trigger] parts[i]).contains(
            ',',
        ) by {
            lemma_decimal_has_no_comma(ids[i] as int);
        }
        lemma_pieces_of_joined(parts, ',');
        lemma_parsed_decimals(ids);
    }
}

} // verus!
