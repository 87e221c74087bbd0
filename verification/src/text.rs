//! Characters and character sequences: the classes of characters that the
//! grammars of this crate are made of, runs of one class, and prefixes.

use vstd::prelude::*;

verus! {

/// A class of characters.
#[derive(Clone, Copy, Debug, PartialEq, Eq, Structural)]
pub enum CharClass {
    /// The ASCII decimal digits.
    Digit,
    /// The characters with the Unicode property `White_Space`.
    Space,
    /// The characters that a name in a template is made of: all but the two
    /// curly brackets and the backslash.
    Name,
}

pub open spec fn is_digit(c: char) -> bool {
    '0' <= c <= '9'
}

/// The characters with the Unicode property `White_Space`.
pub open spec fn is_space(c: char) -> bool {
    ||| '\u{9}' <= c <= '\u{d}'
    ||| c == ' '
    ||| c == '\u{85}'
    ||| c == '\u{a0}'
    ||| c == '\u{1680}'
    ||| '\u{2000}' <= c <= '\u{200a}'
    ||| c == '\u{2028}'
    ||| c == '\u{2029}'
    ||| c == '\u{202f}'
    ||| c == '\u{205f}'
    ||| c == '\u{3000}'
}

pub open spec fn is_name(c: char) -> bool {
    c != '{' && c != '}' && c != '\\'
}

impl CharClass {
    pub open spec fn holds(self, c: char) -> bool {
        match self {
            CharClass::Digit => is_digit(c),
            CharClass::Space => is_space(c),
            CharClass::Name => is_name(c),
        }
    }

    pub fn has(self, c: char) -> (r: bool)
        ensures
            r == self.holds(c),
    {
        match self {
            CharClass::Digit => c >= '0' && c <= '9',
            CharClass::Space => {
                (c >= '\u{9}' && c <= '\u{d}') || c == ' ' || c == '\u{85}' || c == '\u{a0}'
                    || c == '\u{1680}' || (c >= '\u{2000}' && c <= '\u{200a}') || c == '\u{2028}'
                    || c == '\u{2029}' || c == '\u{202f}' || c == '\u{205f}' || c == '\u{3000}'
            },
            CharClass::Name => c != '{' && c != '}' && c != '\\',
        }
    }
}

/// The ASCII lower-case form of a character; a character that is no ASCII
/// capital is its own.
pub open spec fn lower(c: char) -> char {
    if 'A' <= c <= 'Z' {
        ((c as u8) + 32) as char
    } else {
        c
    }
}

pub fn to_lower(c: char) -> (r: char)
    ensures
        r == lower(c),
{
    if c >= 'A' && c <= 'Z' {
        ((c as u8) + 32u8) as char
    } else {
        c
    }
}

/// Each character in its ASCII lower-case form.
pub open spec fn lowered(s: Seq<char>) -> Seq<char> {
    Seq::new(s.len(), |i: int| lower(s[i]))
}

/// Where the longest run of characters of class `k` that starts at `from` ends.
pub open spec fn run_end(s: Seq<char>, from: int, k: CharClass) -> int
    decreases s.len() - from,
{
    if 0 <= from < s.len() && k.holds(s[from]) {
        run_end(s, from + 1, k)
    } else {
        from
    }
}

/// Where the longest run of characters of class `k` that ends at `to` starts.
pub open spec fn run_start(s: Seq<char>, to: int, k: CharClass) -> int
    decreases to,
{
    if 0 < to <= s.len() && k.holds(s[to - 1]) {
        run_start(s, to - 1, k)
    } else {
        to
    }
}

/// What is left of `s` from `from` on, without the white space at its two ends.
pub open spec fn trimmed_from(s: Seq<char>, from: int) -> Seq<char> {
    let a = run_end(s, from, CharClass::Space);
    let b = run_start(s, s.len() as int, CharClass::Space);
    if a < b {
        s.subrange(a, b)
    } else {
        Seq::empty()
    }
}

/// A run ends within the sequence, holds only characters of its class, and
/// cannot be made longer.
pub proof fn lemma_run_end(s: Seq<char>, from: int, k: CharClass)
    requires
        0 <= from <= s.len(),
    ensures
        from <= run_end(s, from, k) <= s.len(),
        forall|i: int| from <= i < run_end(s, from, k) ==> k.holds(#[trigger] s[i]),
        run_end(s, from, k) < s.len() ==> !k.holds(s[run_end(s, from, k)]),
    decreases s.len() - from,
{
    if from < s.len() && k.holds(s[from]) {
        lemma_run_end(s, from + 1, k);
    }
}

/// A run that is followed back from its end starts within the sequence, holds
/// only characters of its class, and cannot be made longer.
pub proof fn lemma_run_start(s: Seq<char>, to: int, k: CharClass)
    requires
        0 <= to <= s.len(),
    ensures
        0 <= run_start(s, to, k) <= to,
        forall|i: int| run_start(s, to, k) <= i < to ==> k.holds(#[trigger] s[i]),
        0 < run_start(s, to, k) ==> !k.holds(s[run_start(s, to, k) - 1]),
    decreases to,
{
    if 0 < to && k.holds(s[to - 1]) {
        lemma_run_start(s, to - 1, k);
    }
}

/// What is left without the white space at its ends is a part of the text
/// behind `from`, and neither begins nor ends with white space. Nothing is
/// left of white space alone.
pub proof fn lemma_trimmed_from(s: Seq<char>, from: int)
    requires
        0 <= from <= s.len(),
    ensures
        trimmed_from(s, from).len() <= s.len() - from,
        trimmed_from(s, from).len() > 0 ==> !is_space(trimmed_from(s, from).first()) && !is_space(
            trimmed_from(s, from).last(),
        ),
        (forall|i: int| from <= i < s.len() ==> is_space(#[trigger] s[i])) <==> trimmed_from(
            s,
            from,
        ).len() == 0,
{
    let a = run_end(s, from, CharClass::Space);
    let b = run_start(s, s.len() as int, CharClass::Space);
    lemma_run_end(s, from, CharClass::Space);
    lemma_run_start(s, s.len() as int, CharClass::Space);
    if a < b {
        assert(trimmed_from(s, from).first() == s[a]);
        assert(trimmed_from(s, from).last() == s[b - 1]);
        assert(!is_space(s[a]));
    } else if a < s.len() {
        assert(!is_space(s[a]));
        assert(b <= a);
        assert(CharClass::Space.holds(s[a]));
    } else {
        assert forall|i: int| from <= i < s.len() implies is_space(#[trigger] s[i]) by {
            assert(CharClass::Space.holds(s[i]));
        }
    }
}

/// The characters of a string, one by one.
pub fn chars_of(s: &str) -> (v: Vec<char>)
    ensures
        v@ == s@,
{
    let mut v: Vec<char> = Vec::new();
    for c in it: s.chars()
        invariant
            it.seq() == s@,
            v@ == s@.take(it.index() as int),
    {
        v.push(c);
    }
    v
}

/// The end of the longest run of class `k` that starts at `from`.
pub fn scan(chars: &Vec<char>, from: usize, k: CharClass) -> (to: usize)
    ensures
        to == run_end(chars@, from as int, k),
        from <= to,
        from <= chars.len() ==> to <= chars.len(),
{
    let mut i: usize = from;
    while i < chars.len() && k.has(chars[i])
        invariant
            from <= i,
            from <= chars.len() ==> i <= chars.len(),
            run_end(chars@, from as int, k) == run_end(chars@, i as int, k),
        decreases chars.len() - i,
    {
        i = i + 1;
    }
    i
}

/// The start of the longest run of class `k` that ends at `to`.
pub fn scan_back(chars: &Vec<char>, to: usize, k: CharClass) -> (from: usize)
    ensures
        from == run_start(chars@, to as int, k),
        from <= to,
{
    let mut i: usize = to;
    while i > 0 && i <= chars.len() && k.has(chars[i - 1])
        invariant
            i <= to,
            run_start(chars@, to as int, k) == run_start(chars@, i as int, k),
        decreases i,
    {
        i = i - 1;
    }
    i
}

/// How one text stands to another.
#[derive(Clone, Copy, Debug, PartialEq, Eq, Structural)]
pub enum Order {
    Before,
    Same,
    After,
}

/// How `a` stands to `b` in the order of strings: the first character in
/// which they differ decides, and a text stands before those that it begins.
pub open spec fn order_of(a: Seq<char>, b: Seq<char>) -> Order
    decreases a.len(),
{
    if a.len() == 0 {
        if b.len() == 0 {
            Order::Same
        } else {
            Order::Before
        }
    } else if b.len() == 0 {
        Order::After
    } else if a[0] < b[0] {
        Order::Before
    } else if a[0] > b[0] {
        Order::After
    } else {
        order_of(a.drop_first(), b.drop_first())
    }
}

/// Two texts stand as one to the other if and only if they are the same.
pub proof fn lemma_order_same(a: Seq<char>, b: Seq<char>)
    ensures
        order_of(a, b) == Order::Same <==> a == b,
    decreases a.len(),
{
    if a.len() > 0 && b.len() > 0 {
        lemma_order_same(a.drop_first(), b.drop_first());
        if a[0] == b[0] && a.drop_first() == b.drop_first() {
            assert(a =~= seq![a[0]] + a.drop_first());
            assert(b =~= seq![b[0]] + b.drop_first());
        }
    } else if a.len() == 0 && b.len() == 0 {
        assert(a =~= b);
    }
}

/// The two ways round agree: `a` stands before `b` if and only if `b` stands
/// after `a`.
pub proof fn lemma_order_turns(a: Seq<char>, b: Seq<char>)
    ensures
        order_of(a, b) == Order::Before <==> order_of(b, a) == Order::After,
        order_of(a, b) == Order::Same <==> order_of(b, a) == Order::Same,
    decreases a.len(),
{
    if a.len() > 0 && b.len() > 0 {
        lemma_order_turns(a.drop_first(), b.drop_first());
    }
}

/// How `a` stands to `b` in the order of strings.
pub fn compare(a: &str, b: &str) -> (r: Order)
    ensures
        r == order_of(a@, b@),
{
    let x = chars_of(a);
    let y = chars_of(b);
    let mut i: usize = 0;
    proof {
        assert(x@.skip(0) =~= x@);
        assert(y@.skip(0) =~= y@);
    }
    while i < x.len() && i < y.len()
        invariant
            x@ == a@,
            y@ == b@,
            i <= x.len(),
            i <= y.len(),
            order_of(a@, b@) == order_of(x@.skip(i as int), y@.skip(i as int)),
        decreases x.len() - i,
    {
        proof {
            assert(x@.skip(i as int).drop_first() =~= x@.skip(i + 1));
            assert(y@.skip(i as int).drop_first() =~= y@.skip(i + 1));
        }
        if x[i] < y[i] {
            return Order::Before;
        }
        if x[i] > y[i] {
            return Order::After;
        }
        i = i + 1;
    }
    if i < y.len() {
        Order::Before
    } else if i < x.len() {
        Order::After
    } else {
        Order::Same
    }
}

/// Whether `text` begins with `prefix`, character for character.
pub fn starts_with(text: &str, prefix: &str) -> (r: bool)
    ensures
        r == prefix@.is_prefix_of(text@),
{
    let t = chars_of(text);
    let p = chars_of(prefix);
    if p.len() > t.len() {
        return false;
    }
    let mut i: usize = 0;
    while i < p.len()
        invariant
            t@ == text@,
            p@ == prefix@,
            i <= p.len() <= t.len(),
            forall|j: int| 0 <= j < i ==> p@[j] == t@[j],
        decreases p.len() - i,
    {
        if p[i] != t[i] {
            assert(t@.subrange(0, p@.len() as int)[i as int] == t@[i as int]);
            return false;
        }
        i = i + 1;
    }
    assert(p@ =~= t@.subrange(0, p@.len() as int));
    true
}

} // verus!
