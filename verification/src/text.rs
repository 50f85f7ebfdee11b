//! Character-level text helpers: decimal rendering, digit tests, and the
//! Pascal-style identifier conversion used when naming synthesized types.
use vstd::prelude::*;

verus! {

/// The single digit character for `d`.
pub open spec fn dec_digit(d: nat) -> char {
    if d == 0 {
        '0'
    } else if d == 1 {
        '1'
    } else if d == 2 {
        '2'
    } else if d == 3 {
        '3'
    } else if d == 4 {
        '4'
    } else if d == 5 {
        '5'
    } else if d == 6 {
        '6'
    } else if d == 7 {
        '7'
    } else if d == 8 {
        '8'
    } else {
        '9'
    }
}

/// The usual decimal rendering of `n`, without leading zeros.
pub open spec fn dec_rep(n: nat) -> Seq<char>
    decreases n,
{
    if n < 10 {
        seq![dec_digit(n)]
    } else {
        dec_rep(n / 10) + seq![dec_digit(n % 10)]
    }
}

fn digit_char(d: usize) -> (c: char)
    requires
        d < 10,
    ensures
        c == dec_digit(d as nat),
{
    match d {
        0 => '0',
        1 => '1',
        2 => '2',
        3 => '3',
        4 => '4',
        5 => '5',
        6 => '6',
        7 => '7',
        8 => '8',
        _ => '9',
    }
}

/// Renders `n` in decimal, as characters.
pub fn usize_chars(n: usize) -> (v: Vec<char>)
    ensures
        v@ == dec_rep(n as nat),
    decreases n,
{
    if n < 10 {
        let mut v: Vec<char> = Vec::new();
        v.push(digit_char(n));
        v
    } else {
        let mut v = usize_chars(n / 10);
        v.push(digit_char(n % 10));
        v
    }
}

pub open spec fn is_ascii_digit_char(c: char) -> bool {
    '0' <= c && c <= '9'
}

pub open spec fn all_ascii_digits(s: Seq<char>) -> bool {
    forall|i: int| 0 <= i < s.len() ==> is_ascii_digit_char(#[trigger] s[i])
}

/// Relies on std's `str::chars` iterator collected into a `Vec`: the
/// characters of the string, in order.
#[verifier::external_body]
pub fn str_chars(s: &str) -> (v: Vec<char>)
    ensures
        v@ == s@,
{
    s.chars().collect()
}

/// Relies on std's `FromIterator for String`: a `String` holding exactly
/// the given characters, in order.
#[verifier::external_body]
pub fn chars_string(v: &Vec<char>) -> (s: String)
    ensures
        s@ == v@,
{
    v.iter().collect()
}

/// Appends every character of `s` to `buf`.
pub fn append_str(buf: &mut Vec<char>, s: &str)
    ensures
        final(buf)@ == old(buf)@ + s@,
{
    let mut tail = str_chars(s);
    buf.append(&mut tail);
}

/// True when every character of `s` is an ASCII digit. The segments this
/// library generates for positional keywords are exactly of that shape.
pub fn is_number(s: &str) -> (r: bool)
    ensures
        r == all_ascii_digits(s@),
{
    let v = str_chars(s);
    let mut i: usize = 0;
    while i < v.len()
        invariant
            v@ == s@,
            i <= v.len(),
            forall|j: int| 0 <= j < i ==> is_ascii_digit_char(#[trigger] v@[j]),
        decreases v@.len() - i,
    {
        let c = v[i];
        if !('0' <= c && c <= '9') {
            return false;
        }
        i += 1;
    }
    true
}

/// Word separators recognized by the identifier conversion.
pub open spec fn is_word_sep(c: char) -> bool {
    c == '_' || c == '-' || c == ' ' || c == '.'
}

/// ASCII lower-case letters map to their upper-case form; everything else
/// is unchanged.
pub open spec fn upper_char(c: char) -> char {
    if c == 'a' {
        'A'
    } else if c == 'b' {
        'B'
    } else if c == 'c' {
        'C'
    } else if c == 'd' {
        'D'
    } else if c == 'e' {
        'E'
    } else if c == 'f' {
        'F'
    } else if c == 'g' {
        'G'
    } else if c == 'h' {
        'H'
    } else if c == 'i' {
        'I'
    } else if c == 'j' {
        'J'
    } else if c == 'k' {
        'K'
    } else if c == 'l' {
        'L'
    } else if c == 'm' {
        'M'
    } else if c == 'n' {
        'N'
    } else if c == 'o' {
        'O'
    } else if c == 'p' {
        'P'
    } else if c == 'q' {
        'Q'
    } else if c == 'r' {
        'R'
    } else if c == 's' {
        'S'
    } else if c == 't' {
        'T'
    } else if c == 'u' {
        'U'
    } else if c == 'v' {
        'V'
    } else if c == 'w' {
        'W'
    } else if c == 'x' {
        'X'
    } else if c == 'y' {
        'Y'
    } else if c == 'z' {
        'Z'
    } else {
        c
    }
}

fn upper_char_exec(c: char) -> (r: char)
    ensures
        r == upper_char(c),
{
    if 'a' <= c && c <= 'z' {
        match c {
            'a' => 'A',
            'b' => 'B',
            'c' => 'C',
            'd' => 'D',
            'e' => 'E',
            'f' => 'F',
            'g' => 'G',
            'h' => 'H',
            'i' => 'I',
            'j' => 'J',
            'k' => 'K',
            'l' => 'L',
            'm' => 'M',
            'n' => 'N',
            'o' => 'O',
            'p' => 'P',
            'q' => 'Q',
            'r' => 'R',
            's' => 'S',
            't' => 'T',
            'u' => 'U',
            'v' => 'V',
            'w' => 'W',
            'x' => 'X',
            'y' => 'Y',
            _ => 'Z',
        }
    } else {
        c
    }
}

/// The Pascal-style conversion of `s` from position `i` on: separators are
/// dropped, the first letter after a separator (or at the start) is
/// upper-cased, and every other character is kept as it stands.
pub open spec fn pascal_from(s: Seq<char>, i: int, boundary: bool) -> Seq<char>
    decreases s.len() - i,
{
    if i < 0 || i >= s.len() {
        Seq::empty()
    } else if is_word_sep(s[i]) {
        pascal_from(s, i + 1, true)
    } else if boundary {
        seq![upper_char(s[i])] + pascal_from(s, i + 1, false)
    } else {
        seq![s[i]] + pascal_from(s, i + 1, false)
    }
}

pub open spec fn pascal_of(s: Seq<char>) -> Seq<char> {
    pascal_from(s, 0, true)
}

/// Converts `s` to a Pascal-style identifier.
#[verifier::loop_isolation(false)]
pub fn pascal_chars(v: &Vec<char>) -> (out: Vec<char>)
    ensures
        out@ == pascal_of(v@),
{
    let mut out: Vec<char> = Vec::new();
    let mut boundary: bool = true;
    let mut i: usize = 0;
    while i < v.len()
        invariant
            i <= v.len(),
            pascal_of(v@) == out@ + pascal_from(v@, i as int, boundary),
        decreases v@.len() - i,
    {
        let c = v[i];
        if c == '_' || c == '-' || c == ' ' || c == '.' {
            boundary = true;
        } else if boundary {
            out.push(upper_char_exec(c));
            boundary = false;
        } else {
            out.push(c);
            boundary = false;
        }
        i += 1;
        proof {
            assert(pascal_of(v@) == out@ + pascal_from(v@, i as int, boundary));
        }
    }
    out
}

/// Converts `s` to a Pascal-style identifier, as a `String`.
pub fn pascal_string(s: &str) -> (out: String)
    ensures
        out@ == pascal_of(s@),
{
    let v = str_chars(s);
    let p = pascal_chars(&v);
    chars_string(&p)
}


/// What follows the last occurrence of `c` in `s`; all of `s` when `c`
/// does not occur.
pub open spec fn after_last(s: Seq<char>, c: char) -> Seq<char>
    decreases s.len(),
{
    if s.len() == 0 {
        s
    } else if s.last() == c {
        Seq::empty()
    } else {
        after_last(s.drop_last(), c) + seq![s.last()]
    }
}

pub proof fn lemma_after_last_at(s: Seq<char>, c: char, i: int)
    requires
        0 <= i < s.len(),
        s[i] == c,
        forall|j: int| i < j < s.len() ==> s[j] != c,
    ensures
        after_last(s, c) == s.skip(i + 1),
    decreases s.len(),
{
    if i == s.len() - 1 {
        assert(after_last(s, c) =~= s.skip(i + 1));
    } else {
        lemma_after_last_at(s.drop_last(), c, i);
        assert(after_last(s, c) =~= s.skip(i + 1));
    }
}

pub proof fn lemma_after_last_absent(s: Seq<char>, c: char)
    requires
        forall|j: int| 0 <= j < s.len() ==> s[j] != c,
    ensures
        after_last(s, c) == s,
    decreases s.len(),
{
    if s.len() > 0 {
        lemma_after_last_absent(s.drop_last(), c);
        assert(after_last(s, c) =~= s);
    }
}

/// The position of the last occurrence of `c` in `v`, if any.
pub fn last_index_of(v: &Vec<char>, c: char) -> (r: Option<usize>)
    ensures
        match r {
            Some(i) => i < v@.len() && v@[i as int] == c && forall|j: int|
                i < j < v@.len() ==> v@[j] != c,
            None => forall|j: int| 0 <= j < v@.len() ==> v@[j] != c,
        },
{
    let mut i: usize = v.len();
    while i > 0
        invariant
            i <= v@.len(),
            forall|j: int| i <= j < v@.len() ==> v@[j] != c,
        decreases i,
    {
        i -= 1;
        if v[i] == c {
            return Some(i);
        }
    }
    None
}

/// The elements of `v` from position `i` on.
pub fn tail_from(v: &Vec<char>, i: usize) -> (r: Vec<char>)
    requires
        i <= v@.len(),
    ensures
        r@ == v@.skip(i as int),
{
    let mut r: Vec<char> = Vec::new();
    let mut j: usize = i;
    while j < v.len()
        invariant
            i <= j <= v@.len(),
            r@ == v@.subrange(i as int, j as int),
        decreases v@.len() - j,
    {
        r.push(v[j]);
        j += 1;
    }
    proof {
        assert(r@ =~= v@.skip(i as int));
    }
    r
}

/// The first `i` elements of `v`.
pub fn take_to(v: &Vec<char>, i: usize) -> (r: Vec<char>)
    requires
        i <= v@.len(),
    ensures
        r@ == v@.take(i as int),
{
    let mut r: Vec<char> = Vec::new();
    let mut j: usize = 0;
    while j < i
        invariant
            j <= i <= v@.len(),
            r@ == v@.subrange(0, j as int),
        decreases i - j,
    {
        r.push(v[j]);
        j += 1;
    }
    r
}

/// Character-for-character comparison of a buffer against a string.
pub fn chars_eq_str(v: &Vec<char>, s: &str) -> (r: bool)
    ensures
        r == (v@ == s@),
{
    let w = str_chars(s);
    if v.len() != w.len() {
        proof {
            assert(v@ != s@);
        }
        return false;
    }
    let mut i: usize = 0;
    while i < v.len()
        invariant
            v@.len() == w@.len(),
            w@ == s@,
            i <= v@.len(),
            forall|j: int| 0 <= j < i ==> v@[j] == w@[j],
        decreases v@.len() - i,
    {
        if v[i] != w[i] {
            return false;
        }
        i += 1;
    }
    proof {
        assert(v@ =~= s@);
    }
    true
}


pub proof fn lemma_dec_rep_shape(n: nat)
    ensures
        dec_rep(n).len() >= 1,
        dec_rep(n).last() == dec_digit(n % 10),
        n < 10 ==> dec_rep(n).drop_last() == Seq::<char>::empty(),
        n >= 10 ==> dec_rep(n).drop_last() == dec_rep(n / 10),
    decreases n,
{
    if n < 10 {
        assert(n % 10 == n);
        assert(dec_rep(n).drop_last() =~= Seq::<char>::empty());
    } else {
        lemma_dec_rep_shape(n / 10);
        assert(dec_rep(n).drop_last() =~= dec_rep(n / 10));
    }
}

/// Distinct numbers render as distinct decimal texts: positional fragment
/// segments never collide.
pub proof fn lemma_dec_rep_injective(a: nat, b: nat)
    requires
        a != b,
    ensures
        dec_rep(a) != dec_rep(b),
    decreases a + b,
{
    lemma_dec_rep_shape(a);
    lemma_dec_rep_shape(b);
    if a % 10 != b % 10 {
        assert(dec_digit(a % 10) != dec_digit(b % 10));
    } else {
        if a < 10 && b < 10 {
            assert(a % 10 == a && b % 10 == b);
            assert(false);
        } else if a < 10 {
            lemma_dec_rep_shape(b / 10);
            if dec_rep(a) == dec_rep(b) {
                assert(dec_rep(a).drop_last() == dec_rep(b).drop_last());
                assert(false);
            }
        } else if b < 10 {
            lemma_dec_rep_shape(a / 10);
            if dec_rep(a) == dec_rep(b) {
                assert(dec_rep(a).drop_last() == dec_rep(b).drop_last());
                assert(false);
            }
        } else {
            assert(a == 10 * (a / 10) + a % 10) by (nonlinear_arith);
            assert(b == 10 * (b / 10) + b % 10) by (nonlinear_arith);
            assert(a / 10 != b / 10) by {
                if a / 10 == b / 10 {
                    assert(a == b);
                }
            }
            lemma_dec_rep_injective(a / 10, b / 10);
            if dec_rep(a) == dec_rep(b) {
                assert(dec_rep(a).drop_last() == dec_rep(b).drop_last());
                assert(false);
            }
        }
    }
}


/// String comparison by characters.
pub fn str_eq(a: &str, b: &str) -> (r: bool)
    ensures
        r == (a@ == b@),
{
    let va = str_chars(a);
    chars_eq_str(&va, b)
}

} // verus!
