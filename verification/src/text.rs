//! Text primitives: concatenation, decimal and hexadecimal numerals, trimming, splitting and
//! searching, each stated over the character-sequence view of a string.

use vstd::prelude::*;

verus! {

/// The character views of a sequence of strings.
pub open spec fn texts(v: Seq<String>) -> Seq<Seq<char>> {
    v.map_values(|s: String| s@)
}

/// Pushing a string pushes its view.
pub broadcast proof fn lemma_texts_push(v: Seq<String>, s: String)
    ensures
        #[trigger] texts(v.push(s)) == texts(v).push(s@),
{
    assert(texts(v.push(s)) =~= texts(v).push(s@));
}

/// `String::push`: the character is appended to the string.
pub assume_specification[ String::push ](s: &mut String, c: char)
    ensures
        final(s)@ == old(s)@.push(c),
;

/// `==` on `str`: true exactly when both hold the same characters.
pub assume_specification[ <str as PartialEq>::eq ](a: &str, b: &str) -> (r: bool)
    ensures
        r == (a@ == b@),
;

/// Whether two strings hold the same characters.
pub fn same(a: &str, b: &str) -> (r: bool)
    ensures
        r == (a@ == b@),
{
    *a == *b
}

/// The characters of a string, in order.
pub fn chars_of(s: &str) -> (r: Vec<char>)
    ensures
        r@ == s@,
{
    let mut out: Vec<char> = Vec::new();
    for c in it: s.chars()
        invariant
            out@ == it.seq().take(it.index()),
            it.seq() == s@,
    {
        out.push(c);
    }
    assert(out@ =~= s@);
    out
}

/// A string from the characters `cs[from..to]`.
pub fn string_of(cs: &Vec<char>, from: usize, to: usize) -> (r: String)
    requires
        from <= to <= cs.len(),
    ensures
        r@ == cs@.subrange(from as int, to as int),
{
    let mut r = String::new();
    let mut i: usize = from;
    while i < to
        invariant
            from <= i <= to <= cs.len(),
            r@ == cs@.subrange(from as int, i as int),
        decreases to - i,
    {
        r.push(cs[i]);
        i = i + 1;
        assert(cs@.subrange(from as int, i as int) =~= cs@.subrange(from as int, i - 1).push(
            cs@[i - 1],
        ));
    }
    r
}

/// The two strings one after the other.
pub fn cat2(a: &str, b: &str) -> (r: String)
    ensures
        r@ == a@ + b@,
{
    String::from_str(a).concat(b)
}

/// The three strings one after the other.
pub fn cat3(a: &str, b: &str, c: &str) -> (r: String)
    ensures
        r@ == a@ + b@ + c@,
{
    cat2(a, b).concat(c)
}

/// The four strings one after the other.
pub fn cat4(a: &str, b: &str, c: &str, d: &str) -> (r: String)
    ensures
        r@ == a@ + b@ + c@ + d@,
{
    cat3(a, b, c).concat(d)
}

/// The five strings one after the other.
pub fn cat5(a: &str, b: &str, c: &str, d: &str, e: &str) -> (r: String)
    ensures
        r@ == a@ + b@ + c@ + d@ + e@,
{
    cat4(a, b, c, d).concat(e)
}

/// The six strings one after the other.
pub fn cat6(a: &str, b: &str, c: &str, d: &str, e: &str, f: &str) -> (r: String)
    ensures
        r@ == a@ + b@ + c@ + d@ + e@ + f@,
{
    cat5(a, b, c, d, e).concat(f)
}

/// The seven strings one after the other.
pub fn cat7(a: &str, b: &str, c: &str, d: &str, e: &str, f: &str, g: &str) -> (r: String)
    ensures
        r@ == a@ + b@ + c@ + d@ + e@ + f@ + g@,
{
    cat6(a, b, c, d, e, f).concat(g)
}

// ---------------------------------------------------------------------------------------------
// Numerals
// ---------------------------------------------------------------------------------------------

/// The digit character of `d`, in lower case: `0` to `9`, then `a` to `f`.
pub open spec fn digit_char(d: nat) -> char {
    if d < 10 {
        (48 + d) as char
    } else {
        (87 + d) as char
    }
}

/// The numeral of `n` in the given base, most significant digit first, without leading zeros.
pub open spec fn numeral(n: nat, base: nat) -> Seq<char>
    decreases n,
{
    if base < 2 || n < base {
        seq![digit_char(n)]
    } else {
        proof {
            assert(n / base < n) by (nonlinear_arith)
                requires
                    n >= base,
                    base >= 2,
            ;
        }
        numeral(n / base, base).push(digit_char(n % base))
    }
}

/// The decimal numeral of `n`.
pub open spec fn dec(n: nat) -> Seq<char> {
    numeral(n, 10)
}

/// The value of a digit character in bases up to sixteen, either case.
pub open spec fn digit_value(c: char) -> Option<nat> {
    if '0' <= c <= '9' {
        Some((c as nat - 48) as nat)
    } else if 'a' <= c <= 'f' {
        Some((c as nat - 87) as nat)
    } else if 'A' <= c <= 'F' {
        Some((c as nat - 55) as nat)
    } else {
        None
    }
}

/// Whether `c` is a digit of the base.
pub open spec fn is_digit_of(c: char, base: nat) -> bool {
    digit_value(c) matches Some(d) && d < base
}

/// Whether every character is a digit of the base.
pub open spec fn all_digits(s: Seq<char>, base: nat) -> bool {
    forall|i: int| 0 <= i < s.len() ==> is_digit_of(#[trigger] s[i], base)
}

/// The number that a sequence of digits denotes.
pub open spec fn number_of(s: Seq<char>, base: nat) -> nat
    decreases s.len(),
{
    if s.len() == 0 {
        0
    } else {
        number_of(s.drop_last(), base) * base + digit_value(s.last()).unwrap_or(0)
    }
}

fn digit_char_of(d: u8) -> (c: char)
    requires
        d < 16,
    ensures
        c == digit_char(d as nat),
{
    if d < 10 {
        (48u8 + d) as char
    } else {
        (87u8 + d) as char
    }
}

fn digit_value_of(c: char) -> (r: Option<u8>)
    ensures
        match r {
            Some(d) => d < 16 && digit_value(c) == Some(d as nat),
            None => digit_value(c) is None,
        },
{
    let n: u32 = c as u32;
    if 48 <= n && n <= 57 {
        Some((n - 48) as u8)
    } else if 97 <= n && n <= 102 {
        Some((n - 87) as u8)
    } else if 65 <= n && n <= 70 {
        Some((n - 55) as u8)
    } else {
        None
    }
}

/// The decimal numeral of `n` as a string.
pub fn dec_text(n: u64) -> (r: String)
    ensures
        r@ == dec(n as nat),
    decreases n,
{
    if n < 10 {
        let mut r = String::new();
        r.push(digit_char_of(n as u8));
        assert(r@ =~= dec(n as nat));
        r
    } else {
        let mut r = dec_text(n / 10);
        r.push(digit_char_of((n % 10) as u8));
        r
    }
}

/// The lower-case hexadecimal numeral of `n` as a string.
pub fn hex_text(n: u16) -> (r: String)
    ensures
        r@ == numeral(n as nat, 16),
    decreases n,
{
    if n < 16 {
        let mut r = String::new();
        r.push(digit_char_of(n as u8));
        assert(r@ =~= numeral(n as nat, 16));
        r
    } else {
        let mut r = hex_text(n / 16);
        r.push(digit_char_of((n % 16) as u8));
        r
    }
}

/// Reading a numeral back gives the number, and a numeral holds digits only, at least one, with
/// no leading zero unless the number is zero.
pub proof fn lemma_numeral(n: nat, base: nat)
    requires
        2 <= base <= 16,
    ensures
        all_digits(numeral(n, base), base),
        numeral(n, base).len() >= 1,
        number_of(numeral(n, base), base) == n,
        numeral(n, base)[0] == '0' <==> n == 0,
        n > 0 ==> numeral(n, base)[0] != '0',
    decreases n,
{
    let s = numeral(n, base);
    if n < base {
        assert(s.drop_last() =~= Seq::<char>::empty());
        assert(number_of(s.drop_last(), base) == 0);
        assert(0nat * base == 0) by (nonlinear_arith);
    } else {
        assert(n / base < n) by (nonlinear_arith)
            requires
                n >= base,
                base >= 2,
        ;
        assert(n / base >= 1) by (nonlinear_arith)
            requires
                n >= base,
                base >= 2,
        ;
        lemma_numeral(n / base, base);
        assert(s.drop_last() =~= numeral(n / base, base));
        assert((n / base) * base + n % base == n) by (nonlinear_arith)
            requires
                base >= 2,
        ;
        assert(n % base < base) by (nonlinear_arith)
            requires
                base >= 2,
        ;
    }
}

/// A numeral of a number below `base^k` has at most `k` digits; stated for the widths in use.
pub proof fn lemma_numeral_len(n: nat)
    ensures
        n < 1000 ==> numeral(n, 10).len() <= 3,
        n < 65536 ==> numeral(n, 16).len() <= 4,
{
    reveal_with_fuel(numeral, 5);
}

/// A prefix of a digit sequence denotes no more than the whole.
proof fn lemma_number_prefix(s: Seq<char>, base: nat, i: int)
    requires
        0 <= i <= s.len(),
        base >= 1,
    ensures
        number_of(s.take(i), base) <= number_of(s, base),
    decreases s.len() - i,
{
    if i < s.len() {
        lemma_number_prefix(s, base, i + 1);
        assert(s.take(i + 1).drop_last() =~= s.take(i));
        let x = number_of(s.take(i), base);
        assert(x <= x * base) by (nonlinear_arith)
            requires
                base >= 1,
        ;
    } else {
        assert(s.take(i) =~= s);
    }
}

/// What an unsigned number with the given largest value is read as: an optional `+`, then one
/// or more decimal digits.
pub open spec fn unsigned_of(s: Seq<char>, max: nat) -> Option<nat> {
    let d = if s.len() > 0 && s[0] == '+' {
        s.skip(1)
    } else {
        s
    };
    if d.len() > 0 && all_digits(d, 10) && number_of(d, 10) <= max {
        Some(number_of(d, 10))
    } else {
        None
    }
}

/// Reads the digits `cs[from..to]` in the base, if they are digits and the number is at most
/// `max`.
pub fn read_digits(cs: &Vec<char>, from: usize, to: usize, base: u8, max: u64) -> (r: Option<u64>)
    requires
        from <= to <= cs.len(),
        2 <= base <= 16,
    ensures
        ({
            let d = cs@.subrange(from as int, to as int);
            match r {
                Some(n) => all_digits(d, base as nat) && number_of(d, base as nat) == n && n <= max,
                None => !(all_digits(d, base as nat) && number_of(d, base as nat) <= max),
            }
        }),
{
    let ghost d = cs@.subrange(from as int, to as int);
    let mut n: u64 = 0;
    let mut i: usize = from;
    while i < to
        invariant
            from <= i <= to <= cs.len(),
            2 <= base <= 16,
            n <= max,
            d == cs@.subrange(from as int, to as int),
            forall|k: int| 0 <= k < i - from ==> is_digit_of(#[trigger] d[k], base as nat),
            number_of(d.take(i - from), base as nat) == n,
        decreases to - i,
    {
        let c = cs[i];
        assert(c == d[i - from]);
        let v = digit_value_of(c);
        match v {
            None => {
                return None;
            },
            Some(x) => {
                if x >= base {
                    return None;
                }
                assert(n * base <= 0xffff_ffff_ffff_ffff * 16) by (nonlinear_arith)
                    requires
                        0 <= n <= 0xffff_ffff_ffff_ffff,
                        0 <= base <= 16,
                ;
                assert(0 <= n * base) by (nonlinear_arith)
                    requires
                        0 <= n,
                        0 <= base,
                ;
                let m: u128 = (n as u128) * (base as u128) + (x as u128);
                proof {
                    assert(d.take(i - from + 1).drop_last() =~= d.take(i - from));
                    assert(number_of(d.take(i - from + 1), base as nat) == m);
                    lemma_number_prefix(d, base as nat, i - from + 1);
                }
                if m > max as u128 {
                    return None;
                }
                n = m as u64;
            },
        }
        i = i + 1;
    }
    assert(d.take(to - from) =~= d);
    Some(n)
}

/// Reads an unsigned number that is at most `max`.
pub fn parse_unsigned(s: &str, max: u64) -> (r: Option<u64>)
    ensures
        match r {
            Some(n) => unsigned_of(s@, max as nat) == Some(n as nat),
            None => unsigned_of(s@, max as nat) is None,
        },
{
    let cs = chars_of(s);
    let from: usize = if cs.len() > 0 && cs[0] == '+' {
        1
    } else {
        0
    };
    assert(s@.skip(1) =~= s@.subrange(1, s@.len() as int) || s@.len() == 0);
    assert(s@ =~= s@.subrange(0, s@.len() as int));
    if from == cs.len() {
        return None;
    }
    read_digits(&cs, from, cs.len(), 10, max)
}

// ---------------------------------------------------------------------------------------------
// White space
// ---------------------------------------------------------------------------------------------

/// The characters with the Unicode `White_Space` property.
pub open spec fn is_whitespace(c: char) -> bool {
    let n = c as u32;
    ||| 0x9 <= n <= 0xd
    ||| n == 0x20
    ||| n == 0x85
    ||| n == 0xa0
    ||| n == 0x1680
    ||| 0x2000 <= n <= 0x200a
    ||| n == 0x2028
    ||| n == 0x2029
    ||| n == 0x202f
    ||| n == 0x205f
    ||| n == 0x3000
}

/// Whether the character is white space.
pub fn whitespace(c: char) -> (r: bool)
    ensures
        r == is_whitespace(c),
{
    let n: u32 = c as u32;
    (0x9 <= n && n <= 0xd) || n == 0x20 || n == 0x85 || n == 0xa0 || n == 0x1680 || (0x2000 <= n
        && n <= 0x200a) || n == 0x2028 || n == 0x2029 || n == 0x202f || n == 0x205f || n == 0x3000
}

/// The text without leading white space.
pub open spec fn trim_start(s: Seq<char>) -> Seq<char>
    decreases s.len(),
{
    if s.len() > 0 && is_whitespace(s[0]) {
        trim_start(s.skip(1))
    } else {
        s
    }
}

/// The text without trailing white space.
pub open spec fn trim_end(s: Seq<char>) -> Seq<char>
    decreases s.len(),
{
    if s.len() > 0 && is_whitespace(s.last()) {
        trim_end(s.drop_last())
    } else {
        s
    }
}

/// The text without white space at either end.
pub open spec fn trimmed(s: Seq<char>) -> Seq<char> {
    trim_end(trim_start(s))
}

/// The text without white space at either end.
pub fn trim(s: &str) -> (r: String)
    ensures
        r@ == trimmed(s@),
{
    let cs = chars_of(s);
    let mut i: usize = 0;
    assert(s@ =~= s@.skip(0));
    while i < cs.len() && whitespace(cs[i])
        invariant
            i <= cs.len(),
            cs@ == s@,
            trim_start(s@.skip(i as int)) == trim_start(s@),
        decreases cs.len() - i,
    {
        assert(s@.skip(i as int).skip(1) =~= s@.skip(i + 1));
        i = i + 1;
    }
    let mut j: usize = cs.len();
    assert(s@.skip(i as int) =~= s@.subrange(i as int, j as int));
    assert(trim_start(s@) == s@.subrange(i as int, j as int));
    while j > i && whitespace(cs[j - 1])
        invariant
            i <= j <= cs.len(),
            cs@ == s@,
            trim_end(s@.subrange(i as int, j as int)) == trimmed(s@),
        decreases j,
    {
        assert(s@.subrange(i as int, j as int).drop_last() =~= s@.subrange(i as int, j - 1));
        j = j - 1;
    }
    string_of(&cs, i, j)
}

// ---------------------------------------------------------------------------------------------
// Searching and splitting
// ---------------------------------------------------------------------------------------------

/// The first index whose character is in `cs`, or the length where none is.
pub open spec fn find_any(s: Seq<char>, cs: Set<char>) -> nat
    decreases s.len(),
{
    if s.len() == 0 || cs.contains(s[0]) {
        0
    } else {
        1 + find_any(s.skip(1), cs)
    }
}

/// `find_any` is the one index that holds a wanted character, or ends the text, with none
/// before it.
pub proof fn lemma_find_any(s: Seq<char>, cs: Set<char>, i: int)
    requires
        0 <= i <= s.len(),
        i < s.len() ==> cs.contains(s[i]),
        forall|k: int| 0 <= k < i ==> !cs.contains(#[trigger] s[k]),
    ensures
        find_any(s, cs) == i,
    decreases s.len(),
{
    if s.len() > 0 && !cs.contains(s[0]) {
        assert forall|k: int| 0 <= k < i - 1 implies !cs.contains(#[trigger] s.skip(1)[k]) by {
            assert(s.skip(1)[k] == s[k + 1]);
        }
        if i < s.len() {
            assert(s.skip(1)[i - 1] == s[i]);
        }
        lemma_find_any(s.skip(1), cs, i - 1);
    } else if s.len() > 0 && i > 0 {
        assert(!cs.contains(s[0]));
    }
}

/// The first index of `c` in `s`, or the length where it does not occur.
pub open spec fn index_of(s: Seq<char>, c: char) -> nat {
    find_any(s, set![c])
}

/// The first index that holds `a` or `b`, or the length.
pub fn find_either(cs: &Vec<char>, a: char, b: char) -> (r: usize)
    ensures
        r <= cs.len(),
        r == find_any(cs@, set![a, b]),
        r < cs.len() ==> cs@[r as int] == a || cs@[r as int] == b,
        forall|k: int| 0 <= k < r ==> cs@[k] != a && cs@[k] != b,
{
    let mut i: usize = 0;
    while i < cs.len() && cs[i] != a && cs[i] != b
        invariant
            i <= cs.len(),
            forall|k: int| 0 <= k < i ==> cs@[k] != a && cs@[k] != b,
        decreases cs.len() - i,
    {
        i = i + 1;
    }
    proof {
        lemma_find_any(cs@, set![a, b], i as int);
    }
    i
}

/// The first index that holds `c`, or the length.
pub fn find_char(cs: &Vec<char>, c: char) -> (r: usize)
    ensures
        r <= cs.len(),
        r == index_of(cs@, c),
        r < cs.len() ==> cs@[r as int] == c,
        forall|k: int| 0 <= k < r ==> cs@[k] != c,
{
    let r = find_either(cs, c, c);
    assert(set![c, c] =~= set![c]);
    r
}

/// Whether `s` starts with `p`.
pub open spec fn has_prefix(s: Seq<char>, p: Seq<char>) -> bool {
    p.len() <= s.len() && s.take(p.len() as int) == p
}

/// Whether `p` occurs in `s` at index `i`.
pub open spec fn occurs_at(s: Seq<char>, p: Seq<char>, i: int) -> bool {
    0 <= i && i + p.len() <= s.len() && s.subrange(i, i + p.len()) == p
}

/// Whether `p` occurs in `s`.
pub open spec fn has_infix(s: Seq<char>, p: Seq<char>) -> bool {
    exists|i: int| occurs_at(s, p, i)
}

fn matches_at(s: &Vec<char>, p: &Vec<char>, i: usize) -> (r: bool)
    requires
        i + p.len() <= s.len(),
    ensures
        r == occurs_at(s@, p@, i as int),
{
    let mut k: usize = 0;
    while k < p.len()
        invariant
            k <= p.len(),
            i + p.len() <= s.len(),
            forall|x: int| 0 <= x < k ==> s@[i + x] == p@[x],
        decreases p.len() - k,
    {
        if s[i + k] != p[k] {
            assert(s@.subrange(i as int, i + p.len())[k as int] != p@[k as int]);
            return false;
        }
        k = k + 1;
    }
    assert(s@.subrange(i as int, i + p.len()) =~= p@);
    true
}

/// Whether `s` starts with `p`.
pub fn starts_with(s: &str, p: &str) -> (r: bool)
    ensures
        r == has_prefix(s@, p@),
{
    let a = chars_of(s);
    let b = chars_of(p);
    if b.len() > a.len() {
        return false;
    }
    assert(s@.take(p@.len() as int) =~= s@.subrange(0, p@.len() as int));
    matches_at(&a, &b, 0)
}

/// Whether `p` occurs in `s`.
pub fn contains(s: &str, p: &str) -> (r: bool)
    ensures
        r == has_infix(s@, p@),
{
    let a = chars_of(s);
    let b = chars_of(p);
    if b.len() > a.len() {
        return false;
    }
    let last: usize = a.len() - b.len();
    let mut i: usize = 0;
    loop
        invariant
            a@ == s@,
            b@ == p@,
            i <= last,
            last == a.len() - b.len(),
            forall|k: int| 0 <= k < i ==> !occurs_at(s@, p@, k),
        decreases last - i,
    {
        if matches_at(&a, &b, i) {
            return true;
        }
        if i == last {
            return false;
        }
        i = i + 1;
    }
}

/// The text after the prefix `p`, where `s` starts with it.
pub fn strip_prefix(s: &str, p: &str) -> (r: Option<String>)
    ensures
        match r {
            Some(t) => has_prefix(s@, p@) && t@ == s@.skip(p@.len() as int),
            None => !has_prefix(s@, p@),
        },
{
    let a = chars_of(s);
    let b = chars_of(p);
    if starts_with(s, p) {
        assert(s@.skip(p@.len() as int) =~= s@.subrange(p@.len() as int, s@.len() as int));
        Some(string_of(&a, b.len(), a.len()))
    } else {
        None
    }
}

/// The pieces of `s` between occurrences of `c`; there is one more piece than occurrences.
pub open spec fn split(s: Seq<char>, c: char) -> Seq<Seq<char>>
    decreases s.len(),
{
    if s.len() == 0 {
        seq![Seq::<char>::empty()]
    } else {
        let front = split(s.drop_last(), c);
        if s.last() == c {
            front.push(Seq::<char>::empty())
        } else {
            front.drop_last().push(front.last().push(s.last()))
        }
    }
}

pub proof fn lemma_split_nonempty(s: Seq<char>, c: char)
    ensures
        split(s, c).len() >= 1,
    decreases s.len(),
{
    if s.len() > 0 {
        lemma_split_nonempty(s.drop_last(), c);
    }
}

/// The pieces of the text between occurrences of `c`.
pub fn split_on(s: &str, c: char) -> (r: Vec<String>)
    ensures
        texts(r@) == split(s@, c),
{
    broadcast use lemma_texts_push;

    let cs = chars_of(s);
    let mut done: Vec<String> = Vec::new();
    let mut cur = String::new();
    let mut i: usize = 0;
    assert(texts(done@).push(cur@) =~= split(cs@.take(0), c));
    while i < cs.len()
        invariant
            i <= cs.len(),
            texts(done@).push(cur@) == split(cs@.take(i as int), c),
        decreases cs.len() - i,
    {
        let ghost front = split(cs@.take(i as int), c);
        assert(cs@.take(i + 1).drop_last() =~= cs@.take(i as int));
        assert(front.last() == cur@);
        assert(front.drop_last() =~= texts(done@));
        if cs[i] == c {
            let ghost before = cur@;
            done.push(cur);
            cur = String::new();
            assert(texts(done@) =~= front);
        } else {
            cur.push(cs[i]);
        }
        i = i + 1;
    }
    assert(cs@.take(cs.len() as int) =~= s@);
    done.push(cur);
    done
}

/// The strings with `sep` between each two.
pub open spec fn join(parts: Seq<Seq<char>>, sep: Seq<char>) -> Seq<char>
    decreases parts.len(),
{
    if parts.len() == 0 {
        Seq::empty()
    } else if parts.len() == 1 {
        parts[0]
    } else {
        join(parts.drop_last(), sep) + sep + parts.last()
    }
}

/// Text without `c` is its own only piece.
pub proof fn lemma_split_single(s: Seq<char>, c: char)
    requires
        !s.contains(c),
    ensures
        split(s, c) == seq![s],
    decreases s.len(),
{
    if s.len() > 0 {
        assert(s.contains(s.last()));
        assert forall|x: char| s.drop_last().contains(x) implies s.contains(x) by {
            let k = choose|k: int| 0 <= k < s.drop_last().len() && s.drop_last()[k] == x;
            assert(s[k] == x);
        }
        lemma_split_single(s.drop_last(), c);
        assert(s.drop_last().push(s.last()) =~= s);
        assert(split(s, c) =~= seq![s]);
    } else {
        assert(s =~= Seq::<char>::empty());
    }
}

/// A piece without `c` after a separator is the last piece.
pub proof fn lemma_split_append(a: Seq<char>, c: char, b: Seq<char>)
    requires
        !b.contains(c),
    ensures
        split(a + seq![c] + b, c) == split(a, c).push(b),
    decreases b.len(),
{
    let s = a + seq![c] + b;
    if b.len() == 0 {
        assert(s.drop_last() =~= a);
        assert(b =~= Seq::<char>::empty());
    } else {
        let b1 = b.drop_last();
        assert forall|x: char| b1.contains(x) implies b.contains(x) by {
            let k = choose|k: int| 0 <= k < b1.len() && b1[k] == x;
            assert(b[k] == x);
        }
        lemma_split_append(a, c, b1);
        assert(s.drop_last() =~= a + seq![c] + b1);
        assert(b.contains(b.last()));
        assert(s.last() == b.last());
        let front = split(s.drop_last(), c);
        assert(front.drop_last() =~= split(a, c));
        assert(b1.push(b.last()) =~= b);
    }
}

/// Splitting what was joined gives the parts back, where none of them holds the separator.
pub proof fn lemma_split_join(parts: Seq<Seq<char>>, c: char)
    requires
        parts.len() >= 1,
        forall|i: int| 0 <= i < parts.len() ==> !(#[trigger] parts[i]).contains(c),
    ensures
        split(join(parts, seq![c]), c) == parts,
    decreases parts.len(),
{
    if parts.len() == 1 {
        lemma_split_single(parts[0], c);
        assert(parts =~= seq![parts[0]]);
    } else {
        lemma_split_join(parts.drop_last(), c);
        lemma_split_append(join(parts.drop_last(), seq![c]), c, parts.last());
        assert(parts.drop_last().push(parts.last()) =~= parts);
    }
}

/// The strings with `sep` between each two.
pub fn join_with(parts: &Vec<String>, sep: &str) -> (r: String)
    ensures
        r@ == join(texts(parts@), sep@),
{
    let mut r = String::new();
    let mut i: usize = 0;
    while i < parts.len()
        invariant
            i <= parts.len(),
            r@ == join(texts(parts@).take(i as int), sep@),
        decreases parts.len() - i,
    {
        let ghost now = texts(parts@).take(i + 1);
        assert(now.drop_last() =~= texts(parts@).take(i as int));
        if i > 0 {
            r.append(sep);
        }
        r.append(parts[i].as_str());
        i = i + 1;
        assert(r@ =~= join(now, sep@));
    }
    assert(texts(parts@).take(parts@.len() as int) =~= texts(parts@));
    r
}

/// A text in lower case, as Unicode has it.
pub uninterp spec fn lowercase_of(s: Seq<char>) -> Seq<char>;

/// `str::to_lowercase`: the text in lower case. The result is named by `lowercase_of`.
#[verifier::external_body]
pub(crate) fn lowercase(s: &str) -> (r: String)
    ensures
        r@ == lowercase_of(s@),
{
    s.to_lowercase()
}

} // verus!
