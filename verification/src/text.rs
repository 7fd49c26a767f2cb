//! Operations on text, seen as the sequence of its characters.

use vstd::prelude::*;

verus! {

/// `String::push` appends the character.
pub assume_specification[ String::push ](s: &mut String, c: char)
    ensures
        final(s)@ == old(s)@.push(c),
;

/// `char::is_whitespace` tells the characters with the Unicode property White_Space.
pub assume_specification[ char::is_whitespace ](c: char) -> (r: bool)
    ensures
        r == is_white(c),
;

/// The characters with the Unicode property White_Space.
pub open spec fn is_white(c: char) -> bool {
    let n = c as u32;
    ||| 0x09 <= n <= 0x0d
    ||| n == 0x20
    ||| n == 0x85
    ||| n == 0xa0
    ||| n == 0x1680
    ||| 0x2000 <= n <= 0x200a
    ||| n == 0x2028
    ||| n == 0x2029
    ||| n == 0x202f
    ||| n == 0x205f
    ||| n == 0x3000
}

/// The texts of a list of strings.
pub open spec fn views(list: Seq<String>) -> Seq<Seq<char>> {
    Seq::new(list.len(), |i: int| list[i]@)
}

/// The texts of a list of string slices.
pub open spec fn slices(list: Seq<&str>) -> Seq<Seq<char>> {
    Seq::new(list.len(), |i: int| list[i]@)
}

/// Does `s` begin with `head`?
pub open spec fn begins(s: Seq<char>, head: Seq<char>) -> bool {
    head.len() <= s.len() && s.take(head.len() as int) == head
}

/// Does `s` end with `tail`?
pub open spec fn ends(s: Seq<char>, tail: Seq<char>) -> bool {
    tail.len() <= s.len() && s.skip(s.len() - tail.len()) == tail
}

/// The parts of `s` between its occurrences of `sep`: one more than there are occurrences.
pub open spec fn split_on(s: Seq<char>, sep: char) -> Seq<Seq<char>>
    decreases s.len(),
{
    if s.len() == 0 {
        seq![Seq::<char>::empty()]
    } else {
        let parts = split_on(s.drop_last(), sep);
        if s.last() == sep {
            parts.push(Seq::<char>::empty())
        } else {
            parts.update(parts.len() - 1, parts.last().push(s.last()))
        }
    }
}

/// Where `c` last occurs in `s`; `-1` when it does not.
pub open spec fn last_at(s: Seq<char>, c: char) -> int
    decreases s.len(),
{
    if s.len() == 0 {
        -1
    } else if s.last() == c {
        s.len() - 1
    } else {
        last_at(s.drop_last(), c)
    }
}

/// The ASCII lower case of a character; every other character stays.
pub open spec fn lower_char(c: char) -> char {
    if 'A' <= c && c <= 'Z' {
        ((c as u8) + 32) as char
    } else {
        c
    }
}

/// The text with its ASCII letters in lower case.
pub open spec fn lower(s: Seq<char>) -> Seq<char> {
    Seq::new(s.len(), |i: int| lower_char(s[i]))
}

/// The text without the white space it begins with.
pub open spec fn trim_start(s: Seq<char>) -> Seq<char>
    decreases s.len(),
{
    if s.len() > 0 && is_white(s[0]) {
        trim_start(s.skip(1))
    } else {
        s
    }
}

/// The text without the white space it ends with.
pub open spec fn trim_end(s: Seq<char>) -> Seq<char>
    decreases s.len(),
{
    if s.len() > 0 && is_white(s.last()) {
        trim_end(s.drop_last())
    } else {
        s
    }
}

/// The text without the white space at either end.
pub open spec fn trimmed(s: Seq<char>) -> Seq<char> {
    trim_end(trim_start(s))
}

/// The text without the run of `c` it ends with.
pub open spec fn without_tail(s: Seq<char>, c: char) -> Seq<char>
    decreases s.len(),
{
    if s.len() > 0 && s.last() == c {
        without_tail(s.drop_last(), c)
    } else {
        s
    }
}

/// Does `a` come before `b`, character by character?
pub open spec fn before(a: Seq<char>, b: Seq<char>) -> bool
    decreases a.len(),
{
    if b.len() == 0 {
        false
    } else if a.len() == 0 {
        true
    } else if a[0] != b[0] {
        a[0] < b[0]
    } else {
        before(a.skip(1), b.skip(1))
    }
}

/// A number in decimal digits.
pub open spec fn digits(n: nat) -> Seq<char>
    decreases n,
{
    if n < 10 {
        seq![digit(n)]
    } else {
        digits(n / 10).push(digit(n % 10))
    }
}

/// The character of one decimal digit.
pub open spec fn digit(n: nat) -> char {
    (('0' as u8) + n) as char
}

/// Is the character a decimal digit?
pub open spec fn is_digit(c: char) -> bool {
    '0' <= c && c <= '9'
}

/// The number that a run of decimal digits stands for.
pub open spec fn number(s: Seq<char>) -> nat
    decreases s.len(),
{
    if s.len() == 0 {
        0
    } else {
        number(s.drop_last()) * 10 + (s.last() as nat - '0' as nat) as nat
    }
}

/// The characters of `s`, in order.
pub fn chars_of(s: &str) -> (r: Vec<char>)
    ensures
        r@ == s@,
{
    let mut r: Vec<char> = Vec::new();
    for c in it: s.chars()
        invariant
            r@ == it.seq().take(it.index()),
            it.seq() == s@,
    {
        r.push(c);
    }
    r
}

/// The text made of the characters `from..to`.
pub fn text_of(c: &Vec<char>, from: usize, to: usize) -> (r: String)
    requires
        from <= to <= c.len(),
    ensures
        r@ == c@.subrange(from as int, to as int),
{
    let mut r = String::new();
    let mut i: usize = from;
    while i < to
        invariant
            from <= i <= to <= c.len(),
            r@ == c@.subrange(from as int, i as int),
        decreases to - i,
    {
        r.push(c[i]);
        i += 1;
        assert(r@ =~= c@.subrange(from as int, i as int));
    }
    r
}

/// Whether the two texts are the same.
pub fn same(a: &str, b: &str) -> (r: bool)
    ensures
        r == (a@ == b@),
{
    let x = chars_of(a);
    let y = chars_of(b);
    x.len() == y.len() && match_at(&x, 0, &y)
}

/// Whether `part` stands in `c` at `at`.
pub fn match_at(c: &Vec<char>, at: usize, part: &Vec<char>) -> (r: bool)
    requires
        at + part.len() <= c.len(),
    ensures
        r == (c@.subrange(at as int, at + part.len()) == part@),
        at == 0 && c.len() == part.len() ==> r == (c@ == part@),
{
    let mut i: usize = 0;
    while i < part.len()
        invariant
            i <= part.len(),
            at + part.len() <= c.len(),
            forall|k: int| 0 <= k < i ==> c[at + k] == part[k],
        decreases part.len() - i,
    {
        if c[at + i] != part[i] {
            assert(c@.subrange(at as int, at + part.len())[i as int] != part@[i as int]);
            assert(at == 0 ==> c@[i as int] != part@[i as int]);
            return false;
        }
        i += 1;
    }
    assert(c@.subrange(at as int, at + part.len()) =~= part@);
    assert(at == 0 && c.len() == part.len() ==> c@ =~= part@);
    true
}

/// Whether `s` begins with `head`.
pub fn starts_with(s: &str, head: &str) -> (r: bool)
    ensures
        r == begins(s@, head@),
{
    let c = chars_of(s);
    let h = chars_of(head);
    proof {
        if h.len() <= c.len() {
            assert(c@.subrange(0, h.len() as int) =~= c@.take(h.len() as int));
        }
    }
    h.len() <= c.len() && match_at(&c, 0, &h)
}

/// Whether `s` ends with `tail`.
pub fn ends_with(s: &str, tail: &str) -> (r: bool)
    ensures
        r == ends(s@, tail@),
{
    let c = chars_of(s);
    let t = chars_of(tail);
    proof {
        if t.len() <= c.len() {
            assert(c@.subrange(c.len() - t.len(), c.len() as int) =~= c@.skip(c.len() - t.len()));
        }
    }
    t.len() <= c.len() && match_at(&c, c.len() - t.len(), &t)
}

/// What follows `head` in `s`, where `s` begins with it.
pub fn strip_prefix(s: &str, head: &str) -> (r: Option<String>)
    ensures
        r is Some == begins(s@, head@),
        r is Some ==> r->0@ == s@.skip(head@.len() as int),
{
    if !starts_with(s, head) {
        return None;
    }
    let c = chars_of(s);
    let n: usize = chars_of(head).len();
    assert(c@.subrange(n as int, c.len() as int) =~= c@.skip(n as int));
    Some(text_of(&c, n, c.len()))
}

/// Whether `c` occurs in `s`.
pub fn holds(s: &str, c: char) -> (r: bool)
    ensures
        r == s@.contains(c),
{
    let v = chars_of(s);
    let mut i: usize = 0;
    while i < v.len()
        invariant
            i <= v.len(),
            v@ == s@,
            forall|k: int| 0 <= k < i ==> v[k] != c,
        decreases v.len() - i,
    {
        if v[i] == c {
            assert(s@[i as int] == c);
            return true;
        }
        i += 1;
    }
    false
}

/// Splitting always gives at least one part.
pub proof fn split_is_not_empty(s: Seq<char>, sep: char)
    ensures
        split_on(s, sep).len() >= 1,
    decreases s.len(),
{
    if s.len() > 0 {
        split_is_not_empty(s.drop_last(), sep);
    }
}

/// Splitting two texts joined by the separator gives the parts of the one, then of the other.
pub proof fn split_joins(a: Seq<char>, sep: char, b: Seq<char>)
    ensures
        split_on(a.push(sep) + b, sep) == split_on(a, sep) + split_on(b, sep),
    decreases b.len(),
{
    let whole = a.push(sep) + b;
    split_is_not_empty(b, sep);
    if b.len() == 0 {
        assert(whole =~= a.push(sep));
        assert(a.push(sep).drop_last() =~= a);
        assert(split_on(whole, sep) =~= split_on(a, sep) + split_on(b, sep));
    } else {
        split_joins(a, sep, b.drop_last());
        split_is_not_empty(b.drop_last(), sep);
        assert(whole.drop_last() =~= a.push(sep) + b.drop_last());
        assert(split_on(whole, sep) =~= split_on(a, sep) + split_on(b, sep));
    }
}

/// A part of a text holds only characters of the text.
pub proof fn split_adds_nothing(s: Seq<char>, sep: char, k: int)
    requires
        0 <= k < split_on(s, sep).len(),
    ensures
        forall|c: char| #[trigger] split_on(s, sep)[k].contains(c) ==> s.contains(c),
    decreases s.len(),
{
    if s.len() > 0 {
        let parts = split_on(s.drop_last(), sep);
        split_is_not_empty(s.drop_last(), sep);
        if k < parts.len() {
            split_adds_nothing(s.drop_last(), sep, k);
        }
        assert forall|c: char| #[trigger] split_on(s, sep)[k].contains(c) implies s.contains(c) by {
            let part = split_on(s, sep)[k];
            let t = choose|t: int| 0 <= t < part.len() && part[t] == c;
            if k < parts.len() && t < parts[k].len() {
                assert(parts[k][t] == c);
                assert(parts[k].contains(c));
                let u = choose|u: int| 0 <= u < s.drop_last().len() && s.drop_last()[u] == c;
                assert(s[u] == c);
            } else {
                assert(s[s.len() - 1] == c);
            }
        }
    }
}

/// The parts of `s` between its occurrences of `sep`.
pub fn split(s: &str, sep: char) -> (r: Vec<String>)
    ensures
        views(r@) == split_on(s@, sep),
        r@.len() >= 1,
{
    let c = chars_of(s);
    let mut r: Vec<String> = Vec::new();
    let mut part = String::new();
    let mut i: usize = 0;
    assert(views(r@).push(part@) =~= split_on(c@.take(0), sep));
    while i < c.len()
        invariant
            i <= c.len(),
            views(r@).push(part@) == split_on(c@.take(i as int), sep),
        decreases c.len() - i,
    {
        assert(c@.take(i + 1).drop_last() =~= c@.take(i as int));
        let ghost was = views(r@).push(part@);
        if c[i] == sep {
            let done = part;
            part = String::new();
            r.push(done);
            assert(views(r@).push(part@) =~= was.push(Seq::<char>::empty()));
        } else {
            part.push(c[i]);
            assert(views(r@).push(part@) =~= was.update(was.len() - 1, was.last().push(c[i as int])));
        }
        i += 1;
    }
    assert(c@.take(c.len() as int) =~= c@);
    let ghost was = views(r@);
    let ghost tail = part@;
    r.push(part);
    assert(views(r@) =~= was.push(tail));
    r
}

/// Where `c` last occurs in `v`, counted from one; zero when it does not.
pub fn last_of(v: &Vec<char>, c: char) -> (r: usize)
    ensures
        r == last_at(v@, c) + 1,
        r <= v.len(),
{
    let mut i: usize = v.len();
    assert(v@.take(i as int) =~= v@);
    while i > 0
        invariant
            i <= v.len(),
            last_at(v@, c) == last_at(v@.take(i as int), c),
        decreases i,
    {
        assert(v@.take(i as int).drop_last() =~= v@.take(i - 1));
        if v[i - 1] == c {
            return i;
        }
        i -= 1;
    }
    0
}

/// The text with its ASCII letters in lower case.
pub fn to_lower(s: &str) -> (r: String)
    ensures
        r@ == lower(s@),
{
    let c = chars_of(s);
    let mut r = String::new();
    let mut i: usize = 0;
    while i < c.len()
        invariant
            i <= c.len(),
            r@ == lower(c@).take(i as int),
        decreases c.len() - i,
    {
        let x: char = c[i];
        r.push(if 'A' <= x && x <= 'Z' { (x as u8 + 32) as char } else { x });
        i += 1;
        assert(r@ =~= lower(c@).take(i as int));
    }
    assert(lower(c@).take(c.len() as int) =~= lower(s@));
    r
}

/// The text without the white space at either end.
pub fn trim(s: &str) -> (r: String)
    ensures
        r@ == trimmed(s@),
{
    let c = chars_of(s);
    let mut a: usize = 0;
    assert(c@.skip(0) =~= c@);
    while a < c.len() && c[a].is_whitespace()
        invariant
            a <= c.len(),
            trim_start(c@) == trim_start(c@.skip(a as int)),
        decreases c.len() - a,
    {
        assert(c@.skip(a as int).skip(1) =~= c@.skip(a + 1));
        a += 1;
    }
    let mut b: usize = c.len();
    assert(c@.skip(a as int) =~= c@.subrange(a as int, b as int));
    assert(trim_start(c@) == c@.subrange(a as int, b as int));
    while b > a && c[b - 1].is_whitespace()
        invariant
            a <= b <= c.len(),
            trimmed(c@) == trim_end(c@.subrange(a as int, b as int)),
        decreases b,
    {
        assert(c@.subrange(a as int, b as int).drop_last() =~= c@.subrange(a as int, b - 1));
        b -= 1;
    }
    text_of(&c, a, b)
}

/// The text without the run of `x` it ends with.
pub fn trim_tail(s: &str, x: char) -> (r: String)
    ensures
        r@ == without_tail(s@, x),
{
    let c = chars_of(s);
    let mut b: usize = c.len();
    assert(c@.subrange(0, b as int) =~= c@);
    while b > 0 && c[b - 1] == x
        invariant
            b <= c.len(),
            without_tail(c@, x) == without_tail(c@.subrange(0, b as int), x),
        decreases b,
    {
        assert(c@.subrange(0, b as int).drop_last() =~= c@.subrange(0, b - 1));
        b -= 1;
    }
    text_of(&c, 0, b)
}

/// Whether `a` comes before `b`, character by character.
pub fn comes_before(a: &str, b: &str) -> (r: bool)
    ensures
        r == before(a@, b@),
{
    let x = chars_of(a);
    let y = chars_of(b);
    let mut i: usize = 0;
    assert(x@.skip(0) =~= x@ && y@.skip(0) =~= y@);
    while i < x.len() && i < y.len() && x[i] == y[i]
        invariant
            i <= x.len(),
            i <= y.len(),
            before(x@, y@) == before(x@.skip(i as int), y@.skip(i as int)),
        decreases x.len() - i,
    {
        assert(x@.skip(i as int).skip(1) =~= x@.skip(i + 1));
        assert(y@.skip(i as int).skip(1) =~= y@.skip(i + 1));
        i += 1;
    }
    if i >= y.len() {
        false
    } else if i >= x.len() {
        true
    } else {
        x[i] < y[i]
    }
}

/// A number in decimal digits.
pub fn decimal(n: u64) -> (r: String)
    ensures
        r@ == digits(n as nat),
    decreases n,
{
    if n < 10 {
        let mut r = String::new();
        r.push((48u8 + n as u8) as char);
        assert(r@ =~= digits(n as nat));
        r
    } else {
        let mut r = decimal(n / 10);
        r.push((48u8 + (n % 10) as u8) as char);
        r
    }
}

/// Does `part` stand in `s` at `at`?
pub open spec fn stands_at(s: Seq<char>, part: Seq<char>, at: int) -> bool {
    0 <= at && at + part.len() <= s.len() && s.subrange(at, at + part.len()) == part
}

/// Does `part` stand in `s` anywhere?
pub open spec fn mentions(s: Seq<char>, part: Seq<char>) -> bool {
    exists|at: int| #[trigger] stands_at(s, part, at)
}

/// Whether `part` stands in `s` anywhere.
pub fn holds_text(s: &str, part: &str) -> (r: bool)
    ensures
        r == mentions(s@, part@),
{
    let c = chars_of(s);
    let p = chars_of(part);
    if p.len() > c.len() {
        return false;
    }
    let last: usize = c.len() - p.len();
    let mut i: usize = 0;
    while i < last
        invariant
            i <= last,
            last + p.len() == c.len(),
            c@ == s@,
            p@ == part@,
            forall|k: int| 0 <= k < i ==> !#[trigger] stands_at(s@, part@, k),
        decreases last - i,
    {
        if match_at(&c, i, &p) {
            assert(stands_at(s@, part@, i as int));
            return true;
        }
        i += 1;
    }
    let found = match_at(&c, last, &p);
    assert(found == stands_at(s@, part@, last as int));
    found
}

/// What stands before `tail` in `s`, where `s` ends with it.
pub fn strip_suffix(s: &str, tail: &str) -> (r: Option<String>)
    ensures
        r is Some == ends(s@, tail@),
        r is Some ==> r->0@ == s@.take(s@.len() - tail@.len()),
{
    if !ends_with(s, tail) {
        return None;
    }
    let c = chars_of(s);
    let n: usize = chars_of(tail).len();
    assert(c@.subrange(0, c.len() - n) =~= c@.take(c.len() - n));
    Some(text_of(&c, 0, c.len() - n))
}

/// A text without the separator is its own only part.
pub proof fn split_of_unbroken(s: Seq<char>, sep: char)
    requires
        !s.contains(sep),
    ensures
        split_on(s, sep) == seq![s],
    decreases s.len(),
{
    if s.len() > 0 {
        assert(s.contains(s.last()));
        assert forall|c: char| s.drop_last().contains(c) implies s.contains(c) by {
            let k = choose|k: int| 0 <= k < s.drop_last().len() && s.drop_last()[k] == c;
            assert(s[k] == c);
        }
        split_of_unbroken(s.drop_last(), sep);
        assert(split_on(s, sep) =~= seq![s.drop_last().push(s.last())]);
        assert(s.drop_last().push(s.last()) =~= s);
    } else {
        assert(s =~= Seq::empty());
    }
}

/// Do the texts stand in order, each once?
pub open spec fn in_text_order(list: Seq<Seq<char>>) -> bool {
    forall|i: int, j: int|
        #![trigger list[i], list[j]]
        0 <= i < j < list.len() ==> before(list[i], list[j])
}

/// Puts a text in its place, unless it is there.
pub fn add_in_order(list: &mut Vec<String>, text: String)
    requires
        in_text_order(views(old(list)@)),
    ensures
        in_text_order(views(final(list)@)),
        forall|s: Seq<char>| #[trigger]
            views(final(list)@).contains(s) <==> views(old(list)@).contains(s) || s == text@,
{
    let ghost was = views(list@);
    let mut at: usize = 0;
    while at < list.len() && comes_before(list[at].as_str(), text.as_str())
        invariant
            at <= list.len(),
            views(list@) == was,
            forall|k: int| 0 <= k < at ==> before(#[trigger] was[k], text@),
        decreases list.len() - at,
    {
        assert(was[at as int] == list@[at as int]@);
        at += 1;
    }
    if at < list.len() && same(list[at].as_str(), text.as_str()) {
        assert(was[at as int] == text@);
        return;
    }
    proof {
        if at < was.len() {
            assert(was[at as int] == list@[at as int]@);
            before_is_total(was[at as int], text@);
        }
        assert forall|k: int| at <= k < was.len() implies before(text@, #[trigger] was[k]) by {
            if k > at {
                before_is_transitive(text@, was[at as int], was[k]);
            }
        }
    }
    let ghost put = text@;
    list.insert(at, text);
    proof {
        let now = views(list@);
        assert(now =~= was.insert(at as int, put));
        assert forall|a: int, b: int|
            #![trigger now[a], now[b]]
            0 <= a < b < now.len() implies before(now[a], now[b]) by {
            let x = if a < at { a } else { a - 1 };
            let y = if b < at { b } else { b - 1 };
            if a != at {
                assert(now[a] == was[x]);
            }
            if b != at {
                assert(now[b] == was[y]);
            }
        }
        assert forall|s: Seq<char>| #[trigger] now.contains(s) <==> was.contains(s) || s == put by {
            if was.contains(s) {
                let k = choose|k: int| 0 <= k < was.len() && was[k] == s;
                let y = if k < at { k } else { k + 1 };
                assert(now[y] == s);
            }
            if s == put {
                assert(now[at as int] == s);
            }
            if now.contains(s) {
                let k = choose|k: int| 0 <= k < now.len() && now[k] == s;
                let x = if k < at { k } else { k - 1 };
                if k != at {
                    assert(was[x] == s);
                }
            }
        }
    }
}

/// Are all the characters decimal digits?
pub open spec fn all_digits(s: Seq<char>) -> bool {
    forall|i: int| 0 <= i < s.len() ==> is_digit(#[trigger] s[i])
}

/// A longer run of digits stands for no smaller a number.
proof fn number_grows(s: Seq<char>, n: int)
    requires
        0 <= n <= s.len(),
    ensures
        number(s.take(n)) <= number(s),
    decreases s.len(),
{
    if n == s.len() {
        assert(s.take(n) =~= s);
    } else {
        number_grows(s.drop_last(), n);
        assert(s.drop_last().take(n) =~= s.take(n));
    }
}

/// The number that a run of decimal digits stands for, where it is one and fits.
pub fn parse_number(s: &str) -> (r: Option<u64>)
    ensures
        r is Some == (s@.len() > 0 && all_digits(s@) && number(s@) <= u64::MAX),
        r is Some ==> r->0 == number(s@),
{
    let c = chars_of(s);
    if c.len() == 0 {
        return None;
    }
    let mut i: usize = 0;
    while i < c.len()
        invariant
            i <= c.len(),
            c@ == s@,
            forall|k: int| 0 <= k < i ==> is_digit(#[trigger] s@[k]),
        decreases c.len() - i,
    {
        if !('0' <= c[i] && c[i] <= '9') {
            assert(!is_digit(s@[i as int]));
            return None;
        }
        i += 1;
    }
    let mut n: u64 = 0;
    let mut j: usize = 0;
    while j < c.len()
        invariant
            j <= c.len(),
            c@ == s@,
            all_digits(s@),
            n == number(s@.take(j as int)),
        decreases c.len() - j,
    {
        assert(is_digit(s@[j as int]));
        assert(s@.take(j + 1).drop_last() =~= s@.take(j as int));
        assert(s@.take(j + 1).last() == s@[j as int]);
        proof {
            number_grows(s@, j + 1);
        }
        let d: u64 = (c[j] as u32 - '0' as u32) as u64;
        match n.checked_mul(10) {
            Some(tens) => match tens.checked_add(d) {
                Some(m) => {
                    n = m;
                },
                None => {
                    return None;
                },
            },
            None => {
                return None;
            },
        }
        j += 1;
    }
    assert(s@.take(j as int) =~= s@);
    Some(n)
}

/// A number in decimal digits, with a sign in front where it is below nothing.
pub open spec fn signed_digits(n: int) -> Seq<char> {
    if n < 0 {
        seq!['-'] + digits((-n) as nat)
    } else {
        digits(n as nat)
    }
}

/// A number in decimal digits, with a sign in front where it is below nothing.
pub fn signed_decimal(n: i64) -> (r: String)
    ensures
        r@ == signed_digits(n as int),
{
    if n >= 0 {
        return decimal(n as u64);
    }
    let below: u64 = (-(n as i128)) as u64;
    let mut r = String::new();
    r.push('-');
    r.append(decimal(below).as_str());
    assert(r@ =~= signed_digits(n as int));
    r
}

/// `n` spaces.
pub open spec fn spaces(n: nat) -> Seq<char> {
    Seq::new(n, |i: int| ' ')
}

/// The text with spaces after it, up to a width.
pub open spec fn padded(s: Seq<char>, width: nat) -> Seq<char> {
    if s.len() < width {
        s + spaces((width - s.len()) as nat)
    } else {
        s
    }
}

/// The text with spaces before it, up to a width.
pub open spec fn padded_left(s: Seq<char>, width: nat) -> Seq<char> {
    if s.len() < width {
        spaces((width - s.len()) as nat) + s
    } else {
        s
    }
}

fn push_spaces(s: &mut String, n: usize)
    ensures
        final(s)@ == old(s)@ + spaces(n as nat),
{
    let mut i: usize = 0;
    let ghost was = s@;
    assert(s@ =~= was + spaces(0));
    while i < n
        invariant
            i <= n,
            s@ == was + spaces(i as nat),
        decreases n - i,
    {
        s.push(' ');
        i += 1;
        assert(s@ =~= was + spaces(i as nat));
    }
}

/// A cell of a table, to the left.
pub fn pad(s: &str, width: usize) -> (r: String)
    ensures
        r@ == padded(s@, width as nat),
{
    let n: usize = chars_of(s).len();
    let mut r = s.to_owned();
    if n < width {
        push_spaces(&mut r, width - n);
    }
    r
}

/// A cell of a table, to the right.
pub fn pad_left(s: &str, width: usize) -> (r: String)
    ensures
        r@ == padded_left(s@, width as nat),
{
    let n: usize = chars_of(s).len();
    let mut r = String::new();
    if n < width {
        push_spaces(&mut r, width - n);
    }
    let ghost lead = r@;
    r.append(s);
    assert(lead + s@ =~= padded_left(s@, width as nat));
    r
}

/// The texts with a separator between them.
pub open spec fn joined(list: Seq<Seq<char>>, sep: Seq<char>) -> Seq<char>
    decreases list.len(),
{
    if list.len() == 0 {
        Seq::empty()
    } else if list.len() == 1 {
        list[0]
    } else {
        joined(list.drop_last(), sep) + sep + list.last()
    }
}

/// The texts with a separator between them.
pub fn join(list: &Vec<String>, sep: &str) -> (r: String)
    ensures
        r@ == joined(views(list@), sep@),
{
    let ghost all = views(list@);
    let mut r = String::new();
    let mut i: usize = 0;
    assert(all.take(0) =~= Seq::<Seq<char>>::empty());
    assert(r@ =~= Seq::<char>::empty());
    while i < list.len()
        invariant
            i <= list.len(),
            all == views(list@),
            r@ == joined(all.take(i as int), sep@),
        decreases list.len() - i,
    {
        assert(all.take(i + 1).drop_last() =~= all.take(i as int));
        assert(all.take(i + 1).last() == list@[i as int]@);
        let ghost was = r@;
        if i > 0 {
            r.append(sep);
        }
        r.append(list[i].as_str());
        proof {
            if i == 0 {
                assert(r@ =~= list@[0]@);
            } else {
                assert(r@ =~= was + sep@ + list@[i as int]@);
            }
        }
        i += 1;
    }
    assert(all.take(i as int) =~= all);
    r
}

/// The first characters of a text, at most `max`.
pub open spec fn first(s: Seq<char>, max: nat) -> Seq<char> {
    if s.len() <= max {
        s
    } else {
        s.take(max as int)
    }
}

/// The first characters of a text, at most `max`.
pub fn first_chars(s: &str, max: usize) -> (r: String)
    ensures
        r@ == first(s@, max as nat),
{
    let c = chars_of(s);
    if c.len() <= max {
        return s.to_owned();
    }
    assert(c@.subrange(0, max as int) =~= c@.take(max as int));
    text_of(&c, 0, max)
}

/// The order of texts is a strict one: nothing comes before itself, and of two that come one
/// before the other only one does.
pub proof fn before_is_strict(a: Seq<char>, b: Seq<char>)
    ensures
        !before(a, a),
        before(a, b) ==> !before(b, a),
    decreases a.len(),
{
    if a.len() > 0 {
        before_is_strict(a.skip(1), b.skip(1));
    }
}

/// Of two different texts one comes before the other.
pub proof fn before_is_total(a: Seq<char>, b: Seq<char>)
    requires
        a != b,
    ensures
        before(a, b) || before(b, a),
    decreases a.len(),
{
    if a.len() > 0 && b.len() > 0 && a[0] == b[0] {
        if a.skip(1) == b.skip(1) {
            assert(a =~= seq![a[0]] + a.skip(1));
            assert(b =~= seq![b[0]] + b.skip(1));
        }
        before_is_total(a.skip(1), b.skip(1));
    } else if a.len() == 0 && b.len() == 0 {
        assert(a =~= b);
    }
}

/// What comes before a text comes before all that the text comes before.
pub proof fn before_is_transitive(a: Seq<char>, b: Seq<char>, c: Seq<char>)
    requires
        before(a, b),
        before(b, c),
    ensures
        before(a, c),
    decreases a.len(),
{
    if a.len() > 0 && b.len() > 0 && c.len() > 0 && a[0] == b[0] && b[0] == c[0] {
        before_is_transitive(a.skip(1), b.skip(1), c.skip(1));
    }
}


/// Of two texts that agree up to a place, the one with the smaller character there comes first, and
/// a text comes before any that goes on after it.
pub proof fn the_first_difference_decides(
    a: &str,
    b: &str,
    head: Seq<char>,
    x: Seq<char>,
    y: Seq<char>,
    r: bool,
)
    requires
        a@ == head + x,
        b@ == head + y,
        call_ensures(comes_before, (a, b), r),
    ensures
        x.len() > 0 && y.len() > 0 && x[0] < y[0] ==> r,
        x.len() > 0 && y.len() > 0 && x[0] > y[0] ==> !r,
        x.len() == 0 && y.len() > 0 ==> r,
        y.len() == 0 ==> !r,
{
    a_shared_head_does_not_count(head, x, y);
}

proof fn a_shared_head_does_not_count(head: Seq<char>, x: Seq<char>, y: Seq<char>)
    ensures
        before(head + x, head + y) == before(x, y),
    decreases head.len(),
{
    if head.len() == 0 {
        assert(head + x =~= x && head + y =~= y);
    } else {
        let rest = head.skip(1);
        assert((head + x).skip(1) =~= rest + x);
        assert((head + y).skip(1) =~= rest + y);
        a_shared_head_does_not_count(rest, x, y);
    }
}

/// White space at the ends of a text is taken off, all of it and nothing else.
pub proof fn only_outer_space_is_trimmed(
    s: &str,
    lead: Seq<char>,
    body: Seq<char>,
    tail: Seq<char>,
    r: String,
)
    requires
        call_ensures(trim, (s,), r),
        s@ == lead + body + tail,
        forall|i: int| 0 <= i < lead.len() ==> is_white(#[trigger] lead[i]),
        forall|i: int| 0 <= i < tail.len() ==> is_white(#[trigger] tail[i]),
        body.len() > 0 && !is_white(body[0]) && !is_white(body.last()),
    ensures
        r@ == body,
{
    assert(lead + body + tail =~= lead + (body + tail));
    leading_space_goes(lead, body + tail);
    trailing_space_goes(body, tail);
}

proof fn leading_space_goes(lead: Seq<char>, rest: Seq<char>)
    requires
        forall|i: int| 0 <= i < lead.len() ==> is_white(#[trigger] lead[i]),
        rest.len() > 0 && !is_white(rest[0]),
    ensures
        trim_start(lead + rest) == rest,
    decreases lead.len(),
{
    if lead.len() == 0 {
        assert(lead + rest =~= rest);
    } else {
        assert(is_white(lead[0]));
        assert((lead + rest).skip(1) =~= lead.skip(1) + rest);
        assert forall|i: int| 0 <= i < lead.skip(1).len() implies is_white(
            #[trigger] lead.skip(1)[i],
        ) by {
            assert(lead.skip(1)[i] == lead[i + 1]);
        }
        leading_space_goes(lead.skip(1), rest);
    }
}

proof fn trailing_space_goes(body: Seq<char>, tail: Seq<char>)
    requires
        forall|i: int| 0 <= i < tail.len() ==> is_white(#[trigger] tail[i]),
        body.len() > 0 && !is_white(body.last()),
    ensures
        trim_end(body + tail) == body,
    decreases tail.len(),
{
    if tail.len() == 0 {
        assert(body + tail =~= body);
    } else {
        let n = tail.len() - 1;
        assert(is_white(tail[n]));
        assert((body + tail).last() == tail[n]);
        assert((body + tail).drop_last() =~= body + tail.drop_last());
        assert forall|i: int| 0 <= i < tail.drop_last().len() implies is_white(
            #[trigger] tail.drop_last()[i],
        ) by {
            assert(tail.drop_last()[i] == tail[i]);
        }
        trailing_space_goes(body, tail.drop_last());
    }
}

/// Letters A to Z become small, each in its place; every other character stays.
pub proof fn only_ascii_letters_are_lowered(s: &str, r: String, i: int)
    requires
        call_ensures(to_lower, (s,), r),
    ensures
        r@.len() == s@.len(),
        0 <= i < s@.len() && !('A' <= s@[i] && s@[i] <= 'Z') ==> r@[i] == s@[i],
        0 <= i < s@.len() && 'A' <= s@[i] && s@[i] <= 'Z' ==> r@[i] as int == s@[i] as int + 32,
{
}

/// A number is read as it is written: a digit more is ten times as much and the digit.
pub proof fn a_number_is_read_digit_by_digit(s: &str, t: &str, c: char, a: Option<u64>, b: Option<u64>)
    requires
        call_ensures(parse_number, (s,), a),
        call_ensures(parse_number, (t,), b),
        t@ == s@.push(c),
        s@.len() > 0,
    ensures
        a is Some && '0' <= c && c <= '9' && a->0 * 10 + (c as int - '0' as int) <= u64::MAX
            ==> b is Some && b->0 == a->0 * 10 + (c as int - '0' as int),
        !('0' <= c && c <= '9') ==> b is None,
        b is Some ==> a is Some,
{
    assert(t@.drop_last() =~= s@);
    assert(t@.last() == c);
    if all_digits(s@) && is_digit(c) {
        assert forall|i: int| 0 <= i < t@.len() implies is_digit(#[trigger] t@[i]) by {
            if i < s@.len() {
                assert(t@[i] == s@[i]);
            }
        }
    }
    if all_digits(t@) {
        assert forall|i: int| 0 <= i < s@.len() implies is_digit(#[trigger] s@[i]) by {
            assert(t@[i] == s@[i]);
        }
        assert(is_digit(t@[t@.len() - 1]));
    } else if !is_digit(c) {
        assert(!all_digits(t@));
    }
    if all_digits(t@) && !is_digit(c) {
        assert(is_digit(t@[t@.len() - 1]));
    }
}

/// A number is written without anything in front but the sign of one below nothing: a digit alone,
/// or what it is without its last digit, and that digit.
pub proof fn a_number_is_written_digit_by_digit(n: u64, m: u64, a: String, b: String, k: i64, z: String, v: u64, zv: String)
    requires
        call_ensures(decimal, (n,), a),
        call_ensures(decimal, (m,), b),
        m == n / 10,
        call_ensures(signed_decimal, (k,), z),
        call_ensures(decimal, (v,), zv),
        v == (if k < 0 {
            -k
        } else {
            k as int
        }),
    ensures
        n < 10 ==> a@.len() == 1 && a@[0] as int == '0' as int + n,
        n >= 10 ==> a@.len() == b@.len() + 1 && a@.drop_last() == b@ && a@.last() as int == '0' as int
            + n % 10,
        k >= 0 ==> z@ == zv@,
        k < 0 ==> z@.len() == zv@.len() + 1 && z@[0] == '-' && z@.skip(1) == zv@,
{
    if n >= 10 {
        assert(a@.drop_last() =~= b@);
    }
    if k < 0 {
        assert(z@.skip(1) =~= zv@);
    }
}

/// A cell is filled up with spaces behind it, or in front of it, and never shortened.
pub proof fn a_cell_is_filled_up(s: &str, width: usize, l: String, r: String, i: int)
    requires
        call_ensures(pad, (s, width), l),
        call_ensures(pad_left, (s, width), r),
    ensures
        s@.len() >= width ==> l@ == s@ && r@ == s@,
        s@.len() < width ==> l@.len() == width && r@.len() == width,
        s@.len() < width && 0 <= i < s@.len() ==> l@[i] == s@[i] && r@[width - s@.len() + i] == s@[i],
        s@.len() < width && s@.len() <= i < width ==> l@[i] == ' ',
        s@.len() < width && 0 <= i < width - s@.len() ==> r@[i] == ' ',
{
}

/// What a text begins and ends with, and what is left of it without.
pub proof fn heads_and_tails(s: &str, part: &str, rest: Seq<char>, a: bool, b: bool, c: Option<String>, d: Option<String>)
    requires
        call_ensures(starts_with, (s, part), a),
        call_ensures(ends_with, (s, part), b),
        call_ensures(strip_prefix, (s, part), c),
        call_ensures(strip_suffix, (s, part), d),
    ensures
        a <==> c is Some,
        b <==> d is Some,
        s@ == part@ + rest ==> c is Some && c->0@ == rest,
        s@ == rest + part@ ==> d is Some && d->0@ == rest,
        c is Some ==> s@ == part@ + c->0@,
        d is Some ==> s@ == d->0@ + part@,
{
    if s@ == part@ + rest {
        assert(s@.take(part@.len() as int) =~= part@);
        assert(s@.skip(part@.len() as int) =~= rest);
    }
    if s@ == rest + part@ {
        assert(s@.skip(s@.len() - part@.len()) =~= part@);
        assert(s@.take(s@.len() - part@.len()) =~= rest);
    }
    if c is Some {
        assert(s@ =~= s@.take(part@.len() as int) + s@.skip(part@.len() as int));
    }
    if d is Some {
        let n = s@.len() - part@.len();
        assert(s@ =~= s@.take(n) + s@.skip(n));
    }
}


/// Parts put together again with the separator between them are the text they were parted from.
pub proof fn parting_loses_nothing(s: &str, sep: char, parts: Vec<String>, i: int)
    requires
        call_ensures(split, (s, sep), parts),
    ensures
        parts@.len() > 0,
        joined(views(parts@), seq![sep]) == s@,
        0 <= i < parts@.len() ==> !parts@[i]@.contains(sep),
{
    parted_and_joined(s@, sep);
    split_is_not_empty(s@, sep);
    assert(views(parts@).len() == parts@.len());
    if 0 <= i < parts@.len() {
        assert(views(parts@)[i] == parts@[i]@);
        parts_are_unbroken(s@, sep, i);
    }
}

proof fn parts_are_unbroken(s: Seq<char>, sep: char, i: int)
    requires
        0 <= i < split_on(s, sep).len(),
    ensures
        !split_on(s, sep)[i].contains(sep),
    decreases s.len(),
{
    if s.len() > 0 {
        let parts = split_on(s.drop_last(), sep);
        split_is_not_empty(s.drop_last(), sep);
        let n = parts.len() - 1;
        if i <= n {
            parts_are_unbroken(s.drop_last(), sep, i);
        }
        if s.last() != sep && i == n && split_on(s, sep)[i].contains(sep) {
            let last = parts[n].push(s.last());
            let k = choose|k: int| 0 <= k < last.len() && last[k] == sep;
            assert(parts[n][k] == sep);
        }
    }
}

proof fn parted_and_joined(s: Seq<char>, sep: char)
    ensures
        joined(split_on(s, sep), seq![sep]) == s,
    decreases s.len(),
{
    if s.len() > 0 {
        let t = s.drop_last();
        let parts = split_on(t, sep);
        let now = split_on(s, sep);
        parted_and_joined(t, sep);
        split_is_not_empty(t, sep);
        assert(now.len() >= 1);
        if s.last() == sep {
            assert(now.drop_last() =~= parts);
            assert(joined(now, seq![sep]) =~= s);
        } else {
            assert(now.drop_last() =~= parts.drop_last());
            if parts.len() == 1 {
                assert(joined(now, seq![sep]) =~= s);
            } else {
                assert(joined(parts, seq![sep]) == joined(parts.drop_last(), seq![sep]) + seq![sep]
                    + parts.last());
                assert(now.last() == parts.last().push(s.last()));
                let head = joined(parts.drop_last(), seq![sep]) + seq![sep];
                assert(joined(now, seq![sep]) == head + parts.last().push(s.last()));
                assert(head + parts.last().push(s.last()) =~= (head + parts.last()).push(s.last()));
                assert(t.push(s.last()) =~= s);
            }
        }
    }
}

/// Two texts are the same character by character, and a text holds a character or a part exactly
/// where it has it.
pub proof fn what_a_text_holds(a: &str, b: &str, c: char, eq: bool, found: bool, part: bool, i: int)
    requires
        call_ensures(same, (a, b), eq),
        call_ensures(holds, (a, c), found),
        call_ensures(holds_text, (a, b), part),
    ensures
        eq <==> a@ == b@,
        0 <= i < a@.len() && a@[i] == c ==> found,
        a@.len() == 0 ==> !found,
        0 <= i <= a@.len() - b@.len() && a@.subrange(i, i + b@.len()) == b@ ==> part,
        part ==> b@.len() <= a@.len(),
{
    if 0 <= i <= a@.len() - b@.len() && a@.subrange(i, i + b@.len()) == b@ {
        assert(stands_at(a@, b@, i));
    }
}

} // verus!
