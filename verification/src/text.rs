//! Small verified text building blocks used by the announcement encoding:
//! canonical decimal numbers and a line-oriented scanner.

use vstd::prelude::*;

verus! {

/// A decimal digit.
pub open spec fn is_digit(c: char) -> bool {
    c == '0' || c == '1' || c == '2' || c == '3' || c == '4' || c == '5' || c == '6' || c == '7'
        || c == '8' || c == '9'
}

/// The numeric value of a digit character.
pub open spec fn digit_val(c: char) -> nat {
    if c == '0' {
        0
    } else if c == '1' {
        1
    } else if c == '2' {
        2
    } else if c == '3' {
        3
    } else if c == '4' {
        4
    } else if c == '5' {
        5
    } else if c == '6' {
        6
    } else if c == '7' {
        7
    } else if c == '8' {
        8
    } else {
        9
    }
}

/// The digit character of a value below ten.
pub open spec fn digit_char(d: nat) -> char {
    if d == 0 {
        '0'
    } else if d == 1 {
        '1'
    } else if d == 2 {
        '2'
    } else if d == 3 {
        '3'
    } else if d == 4 {
        '4'
    } else if d == 5 {
        '5'
    } else if d == 6 {
        '6'
    } else if d == 7 {
        '7'
    } else if d == 8 {
        '8'
    } else {
        '9'
    }
}

pub open spec fn all_digits(s: Seq<char>) -> bool {
    forall|i: int| 0 <= i < s.len() ==> is_digit(#[trigger] s[i])
}

/// The number a digit string stands for, most significant digit first.
pub open spec fn val_of(s: Seq<char>) -> nat
    decreases s.len(),
{
    if s.len() == 0 {
        0
    } else {
        val_of(s.drop_last()) * 10 + digit_val(s.last())
    }
}

/// A canonical decimal representation: non-empty, digits only, and no
/// leading zero unless the number itself is zero.
pub open spec fn canonical_dec(s: Seq<char>) -> bool {
    &&& 0 < s.len()
    &&& all_digits(s)
    &&& (s.len() > 1 ==> s[0] != '0')
}

/// The canonical decimal digit string of a number.
pub open spec fn dec_str(n: nat) -> Seq<char>
    decreases n,
{
    if n < 10 {
        seq![digit_char(n)]
    } else {
        dec_str(n / 10).push(digit_char(n % 10))
    }
}

pub proof fn lemma_dec_str_canonical(n: nat)
    ensures
        canonical_dec(dec_str(n)),
        val_of(dec_str(n)) == n,
    decreases n,
{
    if n < 10 {
        let s = dec_str(n);
        assert(s =~= seq![digit_char(n)]);
        let e = s.drop_last();
        assert(e.len() == 0);
        assert(val_of(e) == 0);
        assert(s.last() == digit_char(n));
        assert(val_of(s) == digit_val(digit_char(n)));
        assert(is_digit(s[0]));
        assert(canonical_dec(s));
    } else {
        lemma_dec_str_canonical(n / 10);
        let s = dec_str(n);
        let t = dec_str(n / 10);
        assert(s == t.push(digit_char(n % 10)));
        assert(s.drop_last() =~= t);
        assert(s.last() == digit_char(n % 10));
        assert(val_of(s) == val_of(t) * 10 + digit_val(digit_char(n % 10)));
        assert(digit_val(digit_char(n % 10)) == n % 10);
        assert((n / 10) * 10 + n % 10 == n) by {
            vstd::arithmetic::div_mod::lemma_fundamental_div_mod(n as int, 10);
        }
        assert forall|i: int| 0 <= i < s.len() implies is_digit(#[trigger] s[i]) by {
            if i < t.len() {
                assert(s[i] == t[i]);
            }
        }
        assert(s[0] == t[0]);
        assert(n / 10 >= 1);
        if t.len() == 1 {
            assert(t.last() == t[0]);
            assert(t.drop_last().len() == 0);
            assert(val_of(t.drop_last()) == 0);
            assert(digit_val(t[0]) == n / 10);
            assert(t[0] != '0');
        }
    }
}

/// A digit string that does not start with zero stands for a number of at
/// least one.
pub proof fn lemma_val_of_positive(s: Seq<char>)
    requires
        0 < s.len(),
        all_digits(s),
        s[0] != '0',
    ensures
        1 <= val_of(s),
    decreases s.len(),
{
    if s.len() == 1 {
        assert(s.last() == s[0]);
    } else {
        let t = s.drop_last();
        assert(t[0] == s[0]);
        assert(all_digits(t)) by {
            assert(forall|i: int| 0 <= i < t.len() ==> t[i] == #[trigger] s[i]);
        }
        lemma_val_of_positive(t);
    }
}

/// Canonical decimal representations are unique: a canonical digit string
/// is the canonical string of its own value.
pub proof fn lemma_canonical_unique(s: Seq<char>)
    requires
        canonical_dec(s),
    ensures
        s == dec_str(val_of(s)),
    decreases s.len(),
{
    if s.len() == 1 {
        assert(s.last() == s[0]);
        let e = s.drop_last();
        assert(e.len() == 0);
        assert(val_of(e) == 0);
        assert(val_of(s) == digit_val(s[0]));
        assert(val_of(s) < 10);
        assert(dec_str(val_of(s)) == seq![digit_char(val_of(s))]);
        assert(digit_char(digit_val(s[0])) == s[0]);
        assert(s =~= seq![s[0]]);
    } else {
        let t = s.drop_last();
        let d = digit_val(s.last());
        assert(t[0] == s[0]);
        assert(all_digits(t)) by {
            assert(forall|i: int| 0 <= i < t.len() ==> t[i] == #[trigger] s[i]);
        }
        assert(canonical_dec(t));
        lemma_canonical_unique(t);
        lemma_val_of_positive(t);
        let v = val_of(s);
        assert(v == val_of(t) * 10 + d);
        assert(v >= 10) by {
            assert(val_of(t) * 10 >= 10) by (nonlinear_arith)
                requires
                    val_of(t) >= 1,
            ;
        }
        assert(val_of(t) == v / 10 && d == v % 10) by {
            vstd::arithmetic::div_mod::lemma_fundamental_div_mod_converse(
                v as int,
                10,
                val_of(t) as int,
                d as int,
            );
        }
        assert(dec_str(v) == dec_str(v / 10).push(digit_char(v % 10)));
        assert(digit_char(d) == s.last());
        assert(s =~= t.push(s.last()));
    }
}

/// The value of a digit string bounds the value of each of its prefixes.
pub proof fn lemma_val_of_prefix(s: Seq<char>, i: int)
    requires
        0 <= i <= s.len(),
    ensures
        val_of(s.take(i)) <= val_of(s),
    decreases s.len() - i,
{
    if i < s.len() {
        lemma_val_of_prefix(s, i + 1);
        let t = s.take(i + 1);
        assert(t.drop_last() =~= s.take(i));
        assert(val_of(t) == val_of(s.take(i)) * 10 + digit_val(t.last()));
        assert(val_of(s.take(i)) * 10 >= val_of(s.take(i))) by (nonlinear_arith);
    } else {
        assert(s.take(i) =~= s);
    }
}

/// Parses a canonical decimal number.  Returns the represented value
/// exactly when the input is canonical and the value fits the platform
/// word; rejects everything else.
pub fn parse_dec(s: &str) -> (r: Option<usize>)
    ensures
        match r {
            Some(n) => canonical_dec(s@) && val_of(s@) == n,
            None => !(canonical_dec(s@) && val_of(s@) <= usize::MAX),
        },
{
    let n = s.unicode_len();
    if n == 0 {
        return None;
    }
    if n > 1 && s.get_char(0) == '0' {
        return None;
    }
    let mut acc: usize = 0;
    let mut i: usize = 0;
    while i < n
        invariant
            n == s@.len(),
            0 < n,
            i <= n,
            n > 1 ==> s@[0] != '0',
            all_digits(s@.take(i as int)),
            acc == val_of(s@.take(i as int)),
        decreases n - i,
    {
        let c = s.get_char(i);
        let d: usize = match c {
            '0' => 0,
            '1' => 1,
            '2' => 2,
            '3' => 3,
            '4' => 4,
            '5' => 5,
            '6' => 6,
            '7' => 7,
            '8' => 8,
            '9' => 9,
            _ => {
                proof {
                    assert(!is_digit(s@[i as int]));
                }
                return None;
            },
        };
        proof {
            assert(is_digit(s@[i as int]) && digit_val(s@[i as int]) == d);
        }
        if acc > (usize::MAX - d) / 10 {
            proof {
                assert(s@.take(i as int + 1).drop_last() =~= s@.take(i as int));
                assert(s@.take(i as int + 1).last() == s@[i as int]);
                assert(val_of(s@.take(i as int + 1)) == acc * 10 + d);
                assert(acc * 10 + d > usize::MAX) by (nonlinear_arith)
                    requires
                        acc > (usize::MAX - d) / 10,
                        d <= 9,
                ;
                lemma_val_of_prefix(s@, i as int + 1);
            }
            return None;
        }
        proof {
            assert(acc * 10 + d <= usize::MAX) by (nonlinear_arith)
                requires
                    acc <= (usize::MAX - d) / 10,
                    d <= 9,
            ;
            assert(s@.take(i as int + 1).drop_last() =~= s@.take(i as int));
            assert(s@.take(i as int + 1).last() == s@[i as int]);
        }
        acc = acc * 10 + d;
        i += 1;
    }
    proof {
        assert(s@.take(n as int) =~= s@);
    }
    Some(acc)
}

/// A single-character string for a digit value.
fn digit_text(d: usize) -> (r: &'static str)
    requires
        d < 10,
    ensures
        r@ =~= seq![digit_char(d as nat)],
{
    let r: &'static str = match d {
        0 => "0",
        1 => "1",
        2 => "2",
        3 => "3",
        4 => "4",
        5 => "5",
        6 => "6",
        7 => "7",
        8 => "8",
        _ => "9",
    };
    proof {
        reveal_strlit("0");
        reveal_strlit("1");
        reveal_strlit("2");
        reveal_strlit("3");
        reveal_strlit("4");
        reveal_strlit("5");
        reveal_strlit("6");
        reveal_strlit("7");
        reveal_strlit("8");
        reveal_strlit("9");
    }
    r
}

/// Renders a number as its canonical decimal string.
pub fn dec_of(n: usize) -> (r: String)
    ensures
        r@ == dec_str(n as nat),
    decreases n,
{
    if n < 10 {
        String::from_str(digit_text(n))
    } else {
        proof {
            assert(n / 10 < n) by (nonlinear_arith)
                requires
                    n >= 10,
            ;
        }
        let r = dec_of(n / 10).concat(digit_text(n % 10));
        proof {
            assert(r@ =~= dec_str((n / 10) as nat).push(digit_char((n % 10) as nat)));
        }
        r
    }
}

/// No line break anywhere in the string.
pub open spec fn no_newline(s: Seq<char>) -> bool {
    forall|i: int| 0 <= i < s.len() ==> #[trigger] s[i] != '\n'
}

/// The position of the first line break at or after `from`, or the length
/// of the string if there is none.
pub open spec fn first_nl(s: Seq<char>, from: int) -> int
    decreases s.len() - from,
{
    if from < 0 || from >= s.len() {
        s.len() as int
    } else if s[from] == '\n' {
        from
    } else {
        first_nl(s, from + 1)
    }
}

pub proof fn lemma_first_nl(s: Seq<char>, from: int)
    requires
        0 <= from <= s.len(),
    ensures
        from <= first_nl(s, from) <= s.len(),
        forall|j: int| from <= j < first_nl(s, from) ==> #[trigger] s[j] != '\n',
        first_nl(s, from) < s.len() ==> s[first_nl(s, from)] == '\n',
    decreases s.len() - from,
{
    if from < s.len() && s[from] != '\n' {
        lemma_first_nl(s, from + 1);
    }
}

/// If everything between `from` and `k` is free of line breaks and `k`
/// holds one, then `k` is the first line break after `from`.
pub proof fn lemma_first_nl_at(s: Seq<char>, from: int, k: int)
    requires
        0 <= from <= k < s.len(),
        forall|j: int| from <= j < k ==> #[trigger] s[j] != '\n',
        s[k] == '\n',
    ensures
        first_nl(s, from) == k,
{
    lemma_first_nl(s, from);
    let f = first_nl(s, from);
    if f < k {
        assert(s[f] != '\n');
    }
    if f > k {
        assert(s[k] != '\n');
    }
}

/// One line of a structured text: the expected prefix, then a value free
/// of line breaks, then the line break.  `None` when the text from `from`
/// on does not start with such a line.
pub open spec fn spec_parse_line(s: Seq<char>, from: int, prefix: Seq<char>) -> Option<
    (Seq<char>, int),
> {
    let nl = first_nl(s, from);
    if nl < s.len() && from + prefix.len() <= nl && s.subrange(from, from + prefix.len() as int)
        == prefix {
        Some((s.subrange(from + prefix.len() as int, nl), nl + 1))
    } else {
        None
    }
}

/// Scanning a concatenation finds exactly the concatenated parts.
pub proof fn lemma_parse_line_of_concat(s: Seq<char>, from: int, prefix: Seq<char>, v: Seq<char>)
    requires
        0 <= from <= s.len(),
        no_newline(prefix),
        no_newline(v),
        s.skip(from).len() >= prefix.len() + v.len() + 1,
        s.subrange(from, from + prefix.len() + v.len() + 1) == prefix + v + seq!['\n'],
    ensures
        spec_parse_line(s, from, prefix) == Some::<(Seq<char>, int)>(
            (v, from + prefix.len() + v.len() + 1),
        ),
{
    let k = from + prefix.len() + v.len();
    let piece = prefix + v + seq!['\n'];
    assert forall|j: int| from <= j < k implies #[trigger] s[j] != '\n' by {
        assert(s[j] == piece[j - from]);
        if j - from < prefix.len() {
            assert(piece[j - from] == prefix[j - from]);
        } else {
            assert(piece[j - from] == v[j - from - prefix.len()]);
        }
    };
    assert(s[k] == piece[k - from]);
    assert(piece[k - from] == '\n');
    lemma_first_nl_at(s, from, k);
    assert(s.subrange(from, from + prefix.len() as int) =~= prefix) by {
        assert forall|j: int| 0 <= j < prefix.len() implies s.subrange(
            from,
            from + prefix.len() as int,
        )[j] == prefix[j] by {
            assert(s[from + j] == piece[j]);
        }
    }
    assert(s.subrange(from + prefix.len() as int, k) =~= v) by {
        assert forall|j: int| 0 <= j < v.len() implies s.subrange(from + prefix.len() as int, k)[j]
            == v[j] by {
            assert(s[from + prefix.len() + j] == piece[prefix.len() + j]);
        }
    }
}

/// What a successful scan says about the text: the scanned segment is
/// exactly the prefix, the value and the line break, and the value is free
/// of line breaks.
pub proof fn lemma_parse_line_segment(s: Seq<char>, from: int, prefix: Seq<char>, v: Seq<char>, next: int)
    requires
        0 <= from <= s.len(),
        spec_parse_line(s, from, prefix) == Some::<(Seq<char>, int)>((v, next)),
    ensures
        next == from + prefix.len() + v.len() + 1,
        from <= next <= s.len(),
        s.subrange(from, next) == prefix + v + seq!['\n'],
        no_newline(v),
        no_newline(prefix),
{
    let nl = first_nl(s, from);
    lemma_first_nl(s, from);
    assert(v == s.subrange(from + prefix.len() as int, nl));
    assert(next == nl + 1);
    assert forall|j: int| 0 <= j < v.len() implies #[trigger] v[j] != '\n' by {
        assert(v[j] == s[from + prefix.len() + j]);
    }
    assert forall|j: int| 0 <= j < prefix.len() implies #[trigger] prefix[j] != '\n' by {
        assert(prefix[j] == s.subrange(from, from + prefix.len() as int)[j]);
        assert(prefix[j] == s[from + j]);
    }
    assert(s.subrange(from, next) =~= prefix + v + seq!['\n']) by {
        assert forall|j: int| 0 <= j < next - from implies s.subrange(from, next)[j] == (prefix + v
            + seq!['\n'])[j] by {
            if j < prefix.len() {
                assert(s[from + j] == s.subrange(from, from + prefix.len() as int)[j]);
            } else if j < prefix.len() + v.len() {
                assert(v[j - prefix.len()] == s[from + j]);
            } else {
                assert(j == prefix.len() + v.len());
                assert(s[from + j] == s[nl]);
            }
        }
    }
}

/// Finds the first line break at or after `from`.
fn find_newline(s: &str, from: usize) -> (r: Option<usize>)
    requires
        from <= s@.len(),
    ensures
        match r {
            Some(nl) => nl == first_nl(s@, from as int) && nl < s@.len(),
            None => first_nl(s@, from as int) == s@.len(),
        },
{
    let n = s.unicode_len();
    let mut i: usize = from;
    while i < n
        invariant
            n == s@.len(),
            from <= i <= n,
            forall|j: int| from <= j < i ==> #[trigger] s@[j] != '\n',
        decreases n - i,
    {
        let c = s.get_char(i);
        if c == '\n' {
            proof {
                lemma_first_nl_at(s@, from as int, i as int);
            }
            return Some(i);
        }
        i += 1;
    }
    proof {
        lemma_first_nl(s@, from as int);
        if first_nl(s@, from as int) < s@.len() {
            assert(s@[first_nl(s@, from as int)] != '\n');
        }
    }
    None
}

/// Whether `p` occurs verbatim at position `at`.
fn has_prefix_at(s: &str, at: usize, p: &str) -> (r: bool)
    requires
        at <= s@.len(),
    ensures
        r == (at + p@.len() <= s@.len() && s@.subrange(at as int, at + p@.len() as int) == p@),
{
    let n = s.unicode_len();
    let m = p.unicode_len();
    if m > n - at {
        return false;
    }
    let mut i: usize = 0;
    while i < m
        invariant
            n == s@.len(),
            m == p@.len(),
            at + m <= n,
            i <= m,
            forall|j: int| 0 <= j < i ==> #[trigger] s@[at + j] == p@[j],
        decreases m - i,
    {
        if s.get_char(at + i) != p.get_char(i) {
            proof {
                assert(s@.subrange(at as int, at + p@.len() as int)[i as int] != p@[i as int]);
            }
            return false;
        }
        i += 1;
    }
    proof {
        assert forall|j: int| 0 <= j < p@.len() implies s@.subrange(
            at as int,
            at + p@.len() as int,
        )[j] == p@[j] by {
            assert(s@[at + j] == p@[j]);
        }
        assert(s@.subrange(at as int, at + p@.len() as int) =~= p@);
    }
    true
}

/// Whether two strings hold the same characters.
pub fn str_eq(a: &str, b: &str) -> (r: bool)
    ensures
        r == (a@ == b@),
{
    let n = a.unicode_len();
    let m = b.unicode_len();
    if n != m {
        proof {
            assert(a@ != b@);
        }
        return false;
    }
    let mut i: usize = 0;
    while i < n
        invariant
            n == a@.len(),
            n == b@.len(),
            i <= n,
            forall|j: int| 0 <= j < i ==> #[trigger] a@[j] == b@[j],
        decreases n - i,
    {
        if a.get_char(i) != b.get_char(i) {
            return false;
        }
        i += 1;
    }
    proof {
        assert(a@ =~= b@);
    }
    true
}

/// Scans one line at `from`: the fixed `prefix`, a value, a line break.
/// Returns the value and the position after the line break.
pub fn parse_line(s: &str, from: usize, prefix: &str) -> (r: Option<(String, usize)>)
    requires
        from <= s@.len(),
    ensures
        match r {
            Some((v, next)) => {
                &&& spec_parse_line(s@, from as int, prefix@) == Some::<(Seq<char>, int)>(
                    (v@, next as int),
                )
                &&& from < next <= s@.len()
            },
            None => spec_parse_line(s@, from as int, prefix@) is None,
        },
{
    match find_newline(s, from) {
        None => {
            proof {
                lemma_first_nl(s@, from as int);
            }
            None
        },
        Some(nl) => {
            proof {
                lemma_first_nl(s@, from as int);
            }
            let n = s.unicode_len();
            if !has_prefix_at(s, from, prefix) {
                return None;
            }
            let plen = prefix.unicode_len();
            if nl < from + plen {
                return None;
            }
            let v = s.substring_char(from + plen, nl).to_owned();
            Some((v, nl + 1))
        },
    }
}

} // verus!
