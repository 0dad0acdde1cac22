//! Text building blocks: decimal numerals, port numbers, comma lists.

use vstd::prelude::*;
use vstd::string::*;

verus! {

/// The character that writes the decimal digit `d`.
pub open spec fn digit_char(d: nat) -> char
    recommends
        d < 10,
{
    ('0' as nat + d) as char
}

/// The decimal numeral of `n`: most significant digit first, no leading
/// zero, and `"0"` for zero.
pub open spec fn decimal(n: nat) -> Seq<char>
    decreases n,
{
    if n < 10 {
        seq![digit_char(n)]
    } else {
        decimal(n / 10).push(digit_char(n % 10))
    }
}

/// The text `"true"` or `"false"`.
pub open spec fn bool_text(b: bool) -> Seq<char> {
    if b {
        "true"@
    } else {
        "false"@
    }
}

/// Whether `c` is one of the ten decimal digits.
pub open spec fn is_digit(c: char) -> bool {
    '0' <= c <= '9'
}

/// Whether `s` holds decimal digits only.
pub open spec fn all_digits(s: Seq<char>) -> bool {
    forall|i: int| 0 <= i < s.len() ==> is_digit(#[trigger] s[i])
}

/// The number that a string of decimal digits writes.
pub open spec fn digits_value(s: Seq<char>) -> nat
    decreases s.len(),
{
    if s.len() == 0 {
        0
    } else {
        digits_value(s.drop_last()) * 10 + (s.last() as int - '0' as int) as nat
    }
}

/// The decimal numeral of a number holds digits only, starts with a zero
/// only for zero itself, and reads back as the number.
pub proof fn lemma_decimal_reads_back(n: nat)
    ensures
        decimal(n).len() >= 1,
        all_digits(decimal(n)),
        digits_value(decimal(n)) == n,
        n > 0 ==> decimal(n)[0] != '0',
    decreases n,
{
    if n < 10 {
        let s = decimal(n);
        assert(s.drop_last() =~= Seq::<char>::empty());
        assert(digits_value(s) == digits_value(s.drop_last()) * 10 + (s.last() as int - '0' as int)
            as nat);
    } else {
        lemma_decimal_reads_back(n / 10);
        let head = decimal(n / 10);
        let s = decimal(n);
        assert(s.drop_last() =~= head);
        assert(s.last() == digit_char(n % 10));
        assert(s[0] == head[0]);
        assert forall|i: int| 0 <= i < s.len() implies is_digit(#[trigger] s[i]) by {
            if i < head.len() {
                assert(s[i] == head[i]);
            }
        }
    }
}

fn digit_str(d: u64) -> (s: &'static str)
    requires
        d < 10,
    ensures
        s@ == seq![digit_char(d as nat)],
{
    proof {
        reveal_strlit("0");
        reveal_strlit("1");
        reveal_strlit("2");
        reveal_strlit("3");
        reveal_strlit("4");
        reveal_strlit("5");
        reveal_strlit("6");
        reveal_strlit("7");
        reveal_strlit("8");
        reveal_strlit("9");
    }
    let s = if d == 0 {
        "0"
    } else if d == 1 {
        "1"
    } else if d == 2 {
        "2"
    } else if d == 3 {
        "3"
    } else if d == 4 {
        "4"
    } else if d == 5 {
        "5"
    } else if d == 6 {
        "6"
    } else if d == 7 {
        "7"
    } else if d == 8 {
        "8"
    } else {
        "9"
    };
    assert(s@ =~= seq![digit_char(d as nat)]);
    s
}

/// Appends the decimal numeral of `n` to `out`.
pub fn push_decimal(out: &mut String, n: u64)
    ensures
        final(out)@ == old(out)@ + decimal(n as nat),
    decreases n,
{
    if n >= 10 {
        push_decimal(out, n / 10);
    }
    out.append(digit_str(n % 10));
    proof {
        let d = seq![digit_char((n % 10) as nat)];
        if n >= 10 {
            assert(decimal(n as nat) =~= decimal((n / 10) as nat) + d);
            assert(old(out)@ + decimal((n / 10) as nat) + d =~= old(out)@ + (decimal(
                (n / 10) as nat,
            ) + d));
        }
    }
}

/// The decimal numeral of `n`, as `u64`'s `Display` writes it.
pub fn decimal_text(n: u64) -> (r: String)
    ensures
        r@ == decimal(n as nat),
{
    let mut r = String::new();
    push_decimal(&mut r, n);
    assert(Seq::<char>::empty() + decimal(n as nat) =~= decimal(n as nat));
    r
}

/// The text of a boolean, as `bool`'s `Display` writes it.
pub fn bool_str(b: bool) -> (s: &'static str)
    ensures
        s@ == bool_text(b),
{
    if b {
        "true"
    } else {
        "false"
    }
}

/// `s` without the `+` it may start with.
pub open spec fn without_plus(s: Seq<char>) -> Seq<char> {
    if s.len() > 0 && s[0] == '+' {
        s.drop_first()
    } else {
        s
    }
}

/// The port number that `s` writes: an optional `+`, then one or more
/// decimal digits and nothing else, with a value of at most 65535.
pub open spec fn port_of(s: Seq<char>) -> Option<u16> {
    let digits = without_plus(s);
    if digits.len() > 0 && all_digits(digits) && digits_value(digits) <= u16::MAX {
        Some(digits_value(digits) as u16)
    } else {
        None
    }
}

proof fn lemma_digits_value_grows(s: Seq<char>, k: int)
    requires
        0 <= k <= s.len(),
        all_digits(s),
    ensures
        digits_value(s.take(k)) <= digits_value(s),
    decreases s.len() - k,
{
    if k == s.len() {
        assert(s.take(k) =~= s);
    } else {
        lemma_digits_value_grows(s, k + 1);
        assert(s.take(k + 1).drop_last() =~= s.take(k));
        assert(is_digit(s[k]));
    }
}

/// Reads a port number.
pub fn parse_port(s: &str) -> (port: Option<u16>)
    ensures
        port == port_of(s@),
{
    let n: usize = s.unicode_len();
    let ghost digits = without_plus(s@);
    let mut start: usize = 0;
    let mut value: u32 = 0;
    let mut i: usize = 0;
    proof {
        assert(s@.subrange(0, 0) =~= Seq::<char>::empty());
    }
    for c in it: s.chars()
        invariant
            it.seq() == s@,
            n == s@.len(),
            i == it.index(),
            start <= i <= n,
            digits == without_plus(s@),
            i == 0 ==> start == 0,
            i > 0 ==> digits == s@.subrange(start as int, n as int),
            forall|j: int| start <= j < i ==> is_digit(#[trigger] s@[j]),
            value == digits_value(s@.subrange(start as int, i as int)),
            value <= u16::MAX,
    {
        if i == 0 && c == '+' {
            start = 1;
            proof {
                assert(digits =~= s@.subrange(1, n as int));
                assert(s@.subrange(1, 1) =~= Seq::<char>::empty());
            }
        } else {
            proof {
                if i == 0 {
                    assert(digits =~= s@.subrange(0, n as int));
                }
                assert(digits[i - start] == c);
            }
            if c < '0' || c > '9' {
                assert(!is_digit(digits[i - start]));
                return None;
            }
            proof {
                assert(s@.subrange(start as int, i + 1).drop_last() =~= s@.subrange(
                    start as int,
                    i as int,
                ));
            }
            value = value * 10 + (c as u32 - '0' as u32);
            if value > 65535 {
                proof {
                    assert(digits.take(i + 1 - start) =~= s@.subrange(start as int, i + 1));
                    if all_digits(digits) {
                        lemma_digits_value_grows(digits, i + 1 - start);
                    }
                }
                return None;
            }
        }
        i += 1;
    }
    if start == n {
        proof {
            if n > 0 {
                assert(digits.len() == 0);
            }
        }
        return None;
    }
    proof {
        assert(digits =~= s@.subrange(start as int, n as int));
        assert forall|j: int| 0 <= j < digits.len() implies is_digit(#[trigger] digits[j]) by {
            assert(digits[j] == s@[start + j]);
        }
    }
    Some(value as u16)
}

/// The texts of a list of strings.
pub open spec fn texts(list: Seq<String>) -> Seq<Seq<char>> {
    Seq::new(list.len(), |i: int| list[i]@)
}

/// The pieces of `s` between occurrences of `sep`: one more than there are
/// separators, empty where two separators meet or one stands at an end.
pub open spec fn split(s: Seq<char>, sep: char) -> Seq<Seq<char>>
    decreases s.len(),
{
    if s.len() == 0 {
        seq![Seq::empty()]
    } else {
        let head = split(s.drop_last(), sep);
        if s.last() == sep {
            head.push(Seq::empty())
        } else {
            head.drop_last().push(head.last().push(s.last()))
        }
    }
}

/// The pieces written one after the other with `sep` between them.
pub open spec fn join(pieces: Seq<Seq<char>>, sep: char) -> Seq<char>
    decreases pieces.len(),
{
    if pieces.len() == 0 {
        Seq::empty()
    } else if pieces.len() == 1 {
        pieces[0]
    } else {
        join(pieces.drop_last(), sep).push(sep) + pieces.last()
    }
}

/// A split has at least one piece, and none of its pieces holds the
/// separator.
pub proof fn lemma_split_pieces(s: Seq<char>, sep: char)
    ensures
        split(s, sep).len() >= 1,
        forall|i: int| 0 <= i < split(s, sep).len() ==> !(#[trigger] split(s, sep)[i]).contains(sep),
    decreases s.len(),
{
    if s.len() > 0 {
        let head = split(s.drop_last(), sep);
        lemma_split_pieces(s.drop_last(), sep);
        let whole = split(s, sep);
        assert forall|i: int| 0 <= i < whole.len() implies !(#[trigger] whole[i]).contains(sep) by {
            if i < whole.len() - 1 {
                assert(whole[i] == head[i]);
            } else if s.last() != sep {
                let piece = head.last();
                assert(whole[i] == piece.push(s.last()));
                assert(!piece.contains(sep));
                if whole[i].contains(sep) {
                    let k = choose|k: int| 0 <= k < whole[i].len() && whole[i][k] == sep;
                    assert(piece[k] == sep);
                }
            }
        }
    }
}

/// Joining the pieces of a split gives the text back.
pub proof fn lemma_split_joins(s: Seq<char>, sep: char)
    ensures
        join(split(s, sep), sep) == s,
    decreases s.len(),
{
    if s.len() == 0 {
        assert(join(split(s, sep), sep) =~= s);
    } else {
        let head = split(s.drop_last(), sep);
        lemma_split_pieces(s.drop_last(), sep);
        lemma_split_joins(s.drop_last(), sep);
        let whole = split(s, sep);
        if s.last() == sep {
            assert(whole.drop_last() =~= head);
            assert(join(whole, sep) =~= s.drop_last().push(sep) + Seq::<char>::empty());
            assert(s.drop_last().push(sep) =~= s);
        } else if head.len() == 1 {
            assert(join(head, sep) == head[0]);
            assert(whole[0] == head[0].push(s.last()));
            assert(s.drop_last().push(s.last()) =~= s);
        } else {
            assert(whole.drop_last() =~= head.drop_last());
            assert(join(head, sep) == join(head.drop_last(), sep).push(sep) + head.last());
            assert(join(whole, sep) == join(head.drop_last(), sep).push(sep) + head.last().push(
                s.last(),
            ));
            assert(join(whole, sep) =~= join(head, sep).push(s.last()));
            assert(s.drop_last().push(s.last()) =~= s);
        }
    }
}

/// Splits `s` at its commas.
pub fn split_commas(s: &str) -> (pieces: Vec<String>)
    ensures
        texts(pieces@) == split(s@, ','),
{
    let n: usize = s.unicode_len();
    let mut pieces: Vec<String> = Vec::new();
    let mut start: usize = 0;
    let mut i: usize = 0;
    proof {
        assert(s@.take(0) =~= Seq::<char>::empty());
        assert(texts(pieces@).push(s@.subrange(0, 0)) =~= split(s@.take(0), ','));
    }
    for c in it: s.chars()
        invariant
            it.seq() == s@,
            n == s@.len(),
            i == it.index(),
            start <= i <= n,
            texts(pieces@).push(s@.subrange(start as int, i as int)) == split(s@.take(i as int), ','),
    {
        let ghost before = texts(pieces@);
        let ghost open = s@.subrange(start as int, i as int);
        proof {
            assert(s@.take(i + 1).drop_last() =~= s@.take(i as int));
            assert(s@.take(i + 1).last() == c);
            assert(before.push(open).drop_last() =~= before);
        }
        if c == ',' {
            pieces.push(s.substring_char(start, i).to_owned());
            start = i + 1;
            proof {
                assert(texts(pieces@) =~= before.push(open));
                assert(s@.subrange(start as int, i + 1) =~= Seq::<char>::empty());
            }
        } else {
            proof {
                assert(s@.subrange(start as int, i + 1) =~= open.push(c));
            }
        }
        i += 1;
    }
    let ghost before = texts(pieces@);
    pieces.push(s.substring_char(start, i).to_owned());
    proof {
        assert(s@.take(n as int) =~= s@);
        assert(texts(pieces@) =~= before.push(s@.subrange(start as int, i as int)));
    }
    pieces
}

} // verus!
