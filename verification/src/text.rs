//! Text as sequences of characters: decimal numbers, white space, searching
//! and cutting.

use vstd::prelude::*;
use vstd::string::{StrSliceExecFns, StringExecFns};

verus! {

/// The decimal digit for `d`, which is below ten.
pub open spec fn digit(d: nat) -> char {
    if d == 0 {
        '0'
    } else if d == 1 {
        '1'
    } else if d == 2 {
        '2'
    } else if d == 3 {
        '3'
    } else if d == 4 {
        '4'
    } else if d == 5 {
        '5'
    } else if d == 6 {
        '6'
    } else if d == 7 {
        '7'
    } else if d == 8 {
        '8'
    } else {
        '9'
    }
}

/// `n` in decimal, without leading zeros.
pub open spec fn decimal(n: nat) -> Seq<char>
    decreases n,
{
    if n < 10 {
        seq![digit(n)]
    } else {
        decimal(n / 10).push(digit(n % 10))
    }
}

/// `count` times the character `c`.
pub open spec fn repeat(c: char, count: nat) -> Seq<char> {
    Seq::new(count, |i: int| c)
}

/// `n` in decimal, with zeros in front up to `width` characters. A number
/// with more digits than `width` is written in full.
pub open spec fn zero_padded(n: nat, width: nat) -> Seq<char> {
    if decimal(n).len() >= width {
        decimal(n)
    } else {
        repeat('0', (width - decimal(n).len()) as nat) + decimal(n)
    }
}

/// A number below 2^64 has at most twenty digits, and at least one.
pub proof fn lemma_decimal_len(n: nat)
    ensures
        decimal(n).len() >= 1,
        n < 10 ==> decimal(n).len() == 1,
        n <= u64::MAX ==> decimal(n).len() <= 20,
    decreases n,
{
    reveal_with_fuel(decimal, 21);
}

/// The digit for `d` as text.
fn digit_text(d: u64) -> (s: &'static str)
    requires
        d < 10,
    ensures
        s@ == seq![digit(d as nat)],
{
    proof {
        reveal_strlit("0");
        reveal_strlit("1");
        reveal_strlit("2");
        reveal_strlit("3");
        reveal_strlit("4");
        reveal_strlit("5");
        reveal_strlit("6");
        reveal_strlit("7");
        reveal_strlit("8");
        reveal_strlit("9");
    }
    let s = match d {
        0 => "0",
        1 => "1",
        2 => "2",
        3 => "3",
        4 => "4",
        5 => "5",
        6 => "6",
        7 => "7",
        8 => "8",
        _ => "9",
    };
    s
}

/// Appends `n` in decimal to `out`.
pub fn push_decimal(out: &mut String, n: u64)
    ensures
        final(out)@ == old(out)@ + decimal(n as nat),
    decreases n,
{
    if n >= 10 {
        push_decimal(out, n / 10);
    }
    out.append(digit_text(n % 10));
}

/// The number of digits of `n` in decimal.
pub fn decimal_len(n: u64) -> (len: usize)
    ensures
        len == decimal(n as nat).len(),
        1 <= len <= 20,
    decreases n,
{
    proof {
        lemma_decimal_len(n as nat);
    }
    if n >= 10 {
        1 + decimal_len(n / 10)
    } else {
        1
    }
}

/// Appends `n` in decimal to `out`, with zeros in front up to `width` characters.
pub fn push_zero_padded(out: &mut String, n: u64, width: usize)
    ensures
        final(out)@ == old(out)@ + zero_padded(n as nat, width as nat),
{
    let len = decimal_len(n);
    let mut written: usize = len;
    while written < width
        invariant
            len <= written,
            written <= width || written == len,
            out@ == old(out)@ + repeat('0', (written - len) as nat),
        decreases width - written,
    {
        proof {
            reveal_strlit("0");
        }
        out.append("0");
        written += 1;
    }
    push_decimal(out, n);
}

/// Whether `c` is white space: a character with the Unicode property
/// `White_Space`.
pub open spec fn is_whitespace(c: char) -> bool {
    let u = c as u32;
    ||| 0x09 <= u <= 0x0d
    ||| u == 0x20
    ||| u == 0x85
    ||| u == 0xa0
    ||| u == 0x1680
    ||| 0x2000 <= u <= 0x200a
    ||| u == 0x2028
    ||| u == 0x2029
    ||| u == 0x202f
    ||| u == 0x205f
    ||| u == 0x3000
}

/// A set of characters that a scan runs over.
#[derive(Clone, Copy, Debug)]
pub enum CharClass {
    /// White space.
    Space,
    /// Everything but white space.
    Visible,
    /// Every character but this one.
    Except(char),
}

impl CharClass {
    /// Whether `c` belongs to the class.
    pub open spec fn has(self, c: char) -> bool {
        match self {
            CharClass::Space => is_whitespace(c),
            CharClass::Visible => !is_whitespace(c),
            CharClass::Except(stop) => c != stop,
        }
    }

    /// Whether `c` belongs to the class.
    pub fn contains(&self, c: char) -> (b: bool)
        ensures
            b == self.has(c),
    {
        match self {
            CharClass::Space => char_is_whitespace(c),
            CharClass::Visible => !char_is_whitespace(c),
            CharClass::Except(stop) => c != *stop,
        }
    }
}

/// Whether `c` is white space.
pub fn char_is_whitespace(c: char) -> (b: bool)
    ensures
        b == is_whitespace(c),
{
    let u: u32 = c as u32;
    (0x09 <= u && u <= 0x0d) || u == 0x20 || u == 0x85 || u == 0xa0 || u == 0x1680 || (0x2000 <= u
        && u <= 0x200a) || u == 0x2028 || u == 0x2029 || u == 0x202f || u == 0x205f || u == 0x3000
}

/// How many characters at the front of `s` belong to `class`, up to the
/// first that does not.
pub open spec fn run(s: Seq<char>, class: CharClass) -> nat
    decreases s.len(),
{
    if s.len() > 0 && class.has(s[0]) {
        1 + run(s.drop_first(), class)
    } else {
        0
    }
}

/// How many characters at the back of `s` belong to `class`, down to the
/// last that does not.
pub open spec fn run_back(s: Seq<char>, class: CharClass) -> nat
    decreases s.len(),
{
    if s.len() > 0 && class.has(s.last()) {
        1 + run_back(s.drop_last(), class)
    } else {
        0
    }
}

/// The index of the first `c` in `s`, or the length of `s` if there is none.
pub open spec fn index_of(s: Seq<char>, c: char) -> nat {
    run(s, CharClass::Except(c))
}

/// `s` without the white space at its front and at its back.
pub open spec fn trim(s: Seq<char>) -> Seq<char> {
    let t = s.skip(run(s, CharClass::Space) as int);
    t.take(t.len() - run_back(t, CharClass::Space))
}

/// The position after the run of `class` that starts at `from`, looking no
/// further than `to`.
pub fn scan(chars: &Vec<char>, from: usize, to: usize, class: CharClass) -> (end: usize)
    requires
        from <= to <= chars.len(),
    ensures
        end == from + run(chars@.subrange(from as int, to as int), class),
        from <= end <= to,
{
    let mut i: usize = from;
    while i < to && class.contains(chars[i])
        invariant
            from <= i <= to <= chars.len(),
            from + run(chars@.subrange(from as int, to as int), class) == i + run(
                chars@.subrange(i as int, to as int),
                class,
            ),
        decreases to - i,
    {
        assert(chars@.subrange(i as int, to as int).drop_first() =~= chars@.subrange(
            i + 1,
            to as int,
        ));
        i += 1;
    }
    i
}

/// The position before the run of `class` that ends at `to`, looking no
/// further back than `from`.
pub fn scan_back(chars: &Vec<char>, from: usize, to: usize, class: CharClass) -> (start: usize)
    requires
        from <= to <= chars.len(),
    ensures
        start == to - run_back(chars@.subrange(from as int, to as int), class),
        from <= start <= to,
{
    let mut i: usize = to;
    while i > from && class.contains(chars[i - 1])
        invariant
            from <= i <= to <= chars.len(),
            to - run_back(chars@.subrange(from as int, to as int), class) == i - run_back(
                chars@.subrange(from as int, i as int),
                class,
            ),
        decreases i,
    {
        assert(chars@.subrange(from as int, i as int).drop_last() =~= chars@.subrange(
            from as int,
            i - 1,
        ));
        i -= 1;
    }
    i
}

/// The bounds of the part of `chars` between `from` and `to` that is left
/// when the white space at both ends is cut off.
pub fn trim_bounds(chars: &Vec<char>, from: usize, to: usize) -> (cut: (usize, usize))
    requires
        from <= to <= chars.len(),
    ensures
        from <= cut.0 <= cut.1 <= to,
        chars@.subrange(cut.0 as int, cut.1 as int) == trim(
            chars@.subrange(from as int, to as int),
        ),
{
    let start = scan(chars, from, to, CharClass::Space);
    let end = scan_back(chars, start, to, CharClass::Space);
    proof {
        let s = chars@.subrange(from as int, to as int);
        let t = s.skip(run(s, CharClass::Space) as int);
        assert(t =~= chars@.subrange(start as int, to as int));
    }
    (start, end)
}

/// The characters of `s`, in order.
pub fn chars_of(s: &str) -> (v: Vec<char>)
    ensures
        v@ == s@,
{
    let mut v: Vec<char> = Vec::new();
    for c in it: s.chars()
        invariant
            v@ == it.seq().take(it.index() as int),
    {
        v.push(c);
    }
    v
}

/// Whether `a` and `b` hold the same characters.
pub fn same_text(a: &str, b: &str) -> (same: bool)
    ensures
        same == (a@ == b@),
{
    let x = chars_of(a);
    let y = chars_of(b);
    if x.len() != y.len() {
        return false;
    }
    let mut i: usize = 0;
    while i < x.len()
        invariant
            i <= x.len(),
            x.len() == y.len(),
            x@ == a@,
            y@ == b@,
            forall|k: int| 0 <= k < i ==> x[k] == y[k],
        decreases x.len() - i,
    {
        if x[i] != y[i] {
            return false;
        }
        i += 1;
    }
    assert(a@ =~= b@);
    true
}

/// The part of `s` from character `from` up to character `to`, as a string
/// of its own.
pub fn cut(s: &str, from: usize, to: usize) -> (part: String)
    requires
        from <= to <= s@.len(),
    ensures
        part@ == s@.subrange(from as int, to as int),
{
    String::from_str(s.substring_char(from, to))
}

/// The first word of `s`: what stands between the white space at the front
/// and the next white space. Empty if `s` holds nothing but white space.
pub open spec fn word(s: Seq<char>) -> Seq<char> {
    let t = s.skip(run(s, CharClass::Space) as int);
    t.take(run(t, CharClass::Visible) as int)
}

/// What is left of `s` behind its first word.
pub open spec fn after_word(s: Seq<char>) -> Seq<char> {
    let t = s.skip(run(s, CharClass::Space) as int);
    t.skip(run(t, CharClass::Visible) as int)
}

/// The bounds of the first word of `chars` at or behind `from`.
pub fn next_word(chars: &Vec<char>, from: usize) -> (bounds: (usize, usize))
    requires
        from <= chars.len(),
    ensures
        from <= bounds.0 <= bounds.1 <= chars.len(),
        chars@.subrange(bounds.0 as int, bounds.1 as int) == word(chars@.skip(from as int)),
        chars@.skip(bounds.1 as int) == after_word(chars@.skip(from as int)),
{
    let len = chars.len();
    let start = scan(chars, from, len, CharClass::Space);
    let end = scan(chars, start, len, CharClass::Visible);
    proof {
        let s = chars@.skip(from as int);
        let t = s.skip(run(s, CharClass::Space) as int);
        assert(t =~= chars@.subrange(start as int, len as int));
    }
    (start, end)
}

/// Whether `part` occurs in `s` at position `at`.
pub open spec fn occurs_at(s: Seq<char>, part: Seq<char>, at: int) -> bool {
    0 <= at && at + part.len() <= s.len() && s.subrange(at, at + part.len()) == part
}

/// Whether `part` occurs somewhere in `s`.
pub open spec fn occurs_in(s: Seq<char>, part: Seq<char>) -> bool {
    exists|at: int| occurs_at(s, part, at)
}

/// Whether `part` occurs in `chars` at position `at`.
fn found_at(chars: &Vec<char>, part: &Vec<char>, at: usize) -> (found: bool)
    requires
        at + part.len() <= chars.len(),
    ensures
        found == occurs_at(chars@, part@, at as int),
{
    let mut k: usize = 0;
    while k < part.len()
        invariant
            k <= part.len(),
            at + part.len() <= chars.len(),
            forall|j: int| 0 <= j < k ==> chars[at + j] == part[j],
        decreases part.len() - k,
    {
        if chars[at + k] != part[k] {
            return false;
        }
        k += 1;
    }
    assert(chars@.subrange(at as int, at + part.len()) =~= part@);
    true
}

/// Whether `part` occurs somewhere in `s`.
pub fn contains_text(s: &str, part: &str) -> (found: bool)
    ensures
        found == occurs_in(s@, part@),
{
    let chars = chars_of(s);
    let wanted = chars_of(part);
    if wanted.len() > chars.len() {
        return false;
    }
    let last = chars.len() - wanted.len();
    let mut at: usize = 0;
    loop
        invariant
            at <= last,
            last == chars.len() - wanted.len(),
            chars@ == s@,
            wanted@ == part@,
            forall|k: int| 0 <= k < at ==> !occurs_at(s@, part@, k),
        decreases last - at,
    {
        if found_at(&chars, &wanted, at) {
            return true;
        }
        if at == last {
            return false;
        }
        at += 1;
    }
}

} // verus!
