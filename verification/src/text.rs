//! Text as a sequence of characters: blanks, decimal numerals, order and joining.
use vstd::prelude::*;

verus! {

/// A text as contracts see it.
pub type Text = Seq<char>;

/// The characters with the Unicode property `White_Space`.
pub open spec fn white(c: char) -> bool {
    let u = c as u32;
    ||| 0x09 <= u <= 0x0d
    ||| u == 0x20
    ||| u == 0x85
    ||| u == 0xa0
    ||| u == 0x1680
    ||| 0x2000 <= u <= 0x200a
    ||| u == 0x2028
    ||| u == 0x2029
    ||| u == 0x202f
    ||| u == 0x205f
    ||| u == 0x3000
}

/// Nothing but white space: what is left after trimming is empty.
pub open spec fn blank(s: Text) -> bool {
    forall|i: int| 0 <= i < s.len() ==> white(#[trigger] s[i])
}

fn is_white(c: char) -> (r: bool)
    ensures
        r == white(c),
{
    let u: u32 = c as u32;
    (0x09 <= u && u <= 0x0d) || u == 0x20 || u == 0x85 || u == 0xa0 || u == 0x1680
        || (0x2000 <= u && u <= 0x200a) || u == 0x2028 || u == 0x2029 || u == 0x202f || u == 0x205f
        || u == 0x3000
}

/// Whether a text holds nothing but white space.
pub fn is_blank(s: &str) -> (r: bool)
    ensures
        r == blank(s@),
{
    for c in it: s.chars()
        invariant
            it.seq() == s@,
            forall|i: int| 0 <= i < it.index() ==> white(#[trigger] s@[i]),
    {
        if !is_white(c) {
            assert(!white(s@[it.index()]));
            return false;
        }
    }
    true
}

/// The characters of a text.
pub fn characters(s: &str) -> (r: Vec<char>)
    ensures
        r@ == s@,
{
    let mut out: Vec<char> = Vec::new();
    for c in it: s.chars()
        invariant
            it.seq() == s@,
            out@ == s@.take(it.index()),
    {
        out.push(c);
        assert(s@.take(it.index() + 1) == s@.take(it.index()).push(c));
    }
    assert(s@.take(s@.len() as int) == s@);
    out
}

/// Lexicographic order by code point, which is also the order of the UTF-8 encodings.
pub open spec fn before(a: Text, b: Text) -> bool
    decreases a.len(),
{
    if b.len() == 0 {
        false
    } else if a.len() == 0 {
        true
    } else if a[0] == b[0] {
        before(a.skip(1), b.skip(1))
    } else {
        (a[0] as int) < (b[0] as int)
    }
}

proof fn lemma_before_common(a: Text, b: Text, n: nat)
    requires
        n <= a.len(),
        n <= b.len(),
        a.take(n as int) == b.take(n as int),
    ensures
        before(a, b) == before(a.skip(n as int), b.skip(n as int)),
    decreases n,
{
    if n == 0 {
        assert(a.skip(0) == a && b.skip(0) == b);
    } else {
        assert(a[0] == a.take(n as int)[0] && b[0] == b.take(n as int)[0]);
        let (x, y) = (a.skip(1), b.skip(1));
        assert(x.take(n - 1) =~= a.take(n as int).skip(1));
        assert(y.take(n - 1) =~= b.take(n as int).skip(1));
        lemma_before_common(x, y, (n - 1) as nat);
        assert(x.skip(n - 1) == a.skip(n as int));
        assert(y.skip(n - 1) == b.skip(n as int));
    }
}

/// No text comes before itself.
pub proof fn before_is_irreflexive(a: Text)
    ensures
        !before(a, a),
    decreases a.len(),
{
    if a.len() > 0 {
        before_is_irreflexive(a.skip(1));
    }
}

/// Of two different texts one comes before the other.
pub proof fn before_is_total(a: Text, b: Text)
    ensures
        a != b ==> before(a, b) || before(b, a),
    decreases a.len(),
{
    if a.len() > 0 && b.len() > 0 && a[0] == b[0] {
        before_is_total(a.skip(1), b.skip(1));
        if a.skip(1) == b.skip(1) {
            assert(a =~= seq![a[0]] + a.skip(1));
            assert(b =~= seq![b[0]] + b.skip(1));
        }
    } else if a.len() == 0 && b.len() == 0 {
        assert(a =~= b);
    }
}

/// What comes before a text comes before all that the text comes before.
pub proof fn before_is_transitive(a: Text, b: Text, c: Text)
    requires
        before(a, b),
        before(b, c),
    ensures
        before(a, c),
    decreases a.len(),
{
    if a.len() > 0 && a[0] == b[0] && b[0] == c[0] {
        before_is_transitive(a.skip(1), b.skip(1), c.skip(1));
    }
}

/// Whether a text comes before another.
pub fn is_before(a: &str, b: &str) -> (r: bool)
    ensures
        r == before(a@, b@),
{
    let x: Vec<char> = characters(a);
    let y: Vec<char> = characters(b);
    let mut i: usize = 0;
    while i < x.len() && i < y.len()
        invariant
            x@ == a@,
            y@ == b@,
            i <= x.len(),
            i <= y.len(),
            x@.take(i as int) == y@.take(i as int),
        decreases x.len() - i,
    {
        if x[i] != y[i] {
            proof {
                lemma_before_common(x@, y@, i as nat);
                assert(x@.skip(i as int)[0] == x@[i as int]);
                assert(y@.skip(i as int)[0] == y@[i as int]);
            }
            return x[i] < y[i];
        }
        assert(x@.take(i + 1) == x@.take(i as int).push(x@[i as int]));
        assert(y@.take(i + 1) == y@.take(i as int).push(y@[i as int]));
        i += 1;
    }
    proof {
        lemma_before_common(x@, y@, i as nat);
    }
    i == x.len() && i < y.len()
}

/// Every text stands behind those that come before it, none twice.
pub open spec fn ordered(s: Seq<Text>) -> bool {
    forall|i: int, j: int| 0 <= i < j < s.len() ==> before(#[trigger] s[i], #[trigger] s[j])
}

/// An ordered list with one more text at its place.
pub open spec fn placed(s: Seq<Text>, x: Text) -> Seq<Text>
    decreases s.len(),
{
    if s.len() == 0 {
        seq![x]
    } else if s[0] == x {
        s
    } else if before(x, s[0]) {
        seq![x] + s
    } else {
        seq![s[0]] + placed(s.skip(1), x)
    }
}

/// Placing a text keeps the order and adds that text alone.
pub proof fn placed_is_ordered_insertion(s: Seq<Text>, x: Text)
    requires
        ordered(s),
    ensures
        ordered(placed(s, x)),
        forall|t: Text| #[trigger] placed(s, x).contains(t) <==> s.contains(t) || t == x,
    decreases s.len(),
{
    let r = placed(s, x);
    if s.len() == 0 {
        assert(r[0] == x);
    } else if s[0] == x {
        assert(s.contains(x));
    } else if before(x, s[0]) {
        assert(r.skip(1) =~= s);
        assert forall|i: int, j: int| 0 <= i < j < r.len() implies before(
            #[trigger] r[i],
            #[trigger] r[j],
        ) by {
            if i == 0 && j > 1 {
                assert(before(s[0], s[j - 1]));
                before_is_transitive(x, s[0], s[j - 1]);
            } else if i > 0 {
                assert(before(s[i - 1], s[j - 1]));
            }
        }
        assert forall|t: Text| r.contains(t) <==> s.contains(t) || t == x by {
            if s.contains(t) {
                let k = s.index_of(t);
                assert(r[k + 1] == t);
            }
            assert(r[0] == x);
            if r.contains(t) {
                let k = r.index_of(t);
                if k > 0 {
                    assert(s[k - 1] == t);
                }
            }
        }
    } else {
        let tail = s.skip(1);
        assert(ordered(tail)) by {
            assert forall|i: int, j: int| 0 <= i < j < tail.len() implies before(
                #[trigger] tail[i],
                #[trigger] tail[j],
            ) by {
                assert(before(s[i + 1], s[j + 1]));
            }
        }
        placed_is_ordered_insertion(tail, x);
        before_is_total(x, s[0]);
        let rest = placed(tail, x);
        assert forall|i: int, j: int| 0 <= i < j < r.len() implies before(
            #[trigger] r[i],
            #[trigger] r[j],
        ) by {
            if i == 0 {
                assert(rest.contains(rest[j - 1]));
                if rest[j - 1] != x {
                    assert(tail.contains(rest[j - 1]));
                    let k = tail.index_of(rest[j - 1]);
                    assert(before(s[0], s[k + 1]));
                }
            } else {
                assert(before(rest[i - 1], rest[j - 1]));
            }
        }
        assert forall|t: Text| s.contains(t) || t == x implies r.contains(t) by {
            if s.contains(t) && s.index_of(t) == 0 {
                assert(r[0] == t);
            } else {
                if s.contains(t) {
                    assert(tail[s.index_of(t) - 1] == t);
                    assert(tail.contains(t));
                }
                assert(rest.contains(t));
                assert(r[rest.index_of(t) + 1] == t);
            }
        }
        assert forall|t: Text| r.contains(t) implies s.contains(t) || t == x by {
            let k = r.index_of(t);
            if k == 0 {
                assert(s[0] == t);
            } else {
                assert(rest[k - 1] == t);
                assert(rest.contains(t));
                if tail.contains(t) {
                    assert(s[tail.index_of(t) + 1] == t);
                }
            }
        }
    }
}

proof fn lemma_placed_skips(s: Seq<Text>, x: Text, n: nat)
    requires
        n <= s.len(),
        forall|j: int| 0 <= j < n ==> s[j] != x && !before(x, #[trigger] s[j]),
    ensures
        placed(s, x) == s.take(n as int) + placed(s.skip(n as int), x),
    decreases n,
{
    if n == 0 {
        assert(s.take(0) + placed(s.skip(0), x) =~= placed(s, x)) by {
            assert(s.skip(0) =~= s);
        }
    } else {
        let tail = s.skip(1);
        assert(s[0] != x && !before(x, s[0]));
        assert forall|j: int| 0 <= j < n - 1 implies tail[j] != x && !before(
            x,
            #[trigger] tail[j],
        ) by {
            assert(s[j + 1] != x && !before(x, s[j + 1]));
        }
        lemma_placed_skips(tail, x, (n - 1) as nat);
        assert(tail.skip(n - 1) =~= s.skip(n as int));
        assert(seq![s[0]] + (tail.take(n - 1) + placed(tail.skip(n - 1), x)) =~= s.take(n as int)
            + placed(s.skip(n as int), x));
    }
}

/// Puts a text at its place in an ordered list, unless it is there.
pub fn place(list: &mut Vec<String>, x: String)
    ensures
        final(list).deep_view() == placed(old(list).deep_view(), x@),
{
    let ghost s = list.deep_view();
    let mut i: usize = 0;
    while i < list.len()
        invariant
            s == list.deep_view(),
            *list == *old(list),
            i <= list.len(),
            forall|j: int| 0 <= j < i ==> s[j] != x@ && !before(x@, #[trigger] s[j]),
        decreases list.len() - i,
    {
        assert(s[i as int] == list@[i as int]@);
        if list[i] == x {
            proof {
                lemma_placed_skips(s, x@, i as nat);
                assert(s.skip(i as int)[0] == x@);
                assert(s.take(i as int) + s.skip(i as int) =~= s);
            }
            return ;
        }
        if is_before(x.as_str(), list[i].as_str()) {
            proof {
                lemma_placed_skips(s, x@, i as nat);
                assert(s.skip(i as int)[0] == s[i as int]);
            }
            list.insert(i, x);
            assert(list.deep_view() =~= s.take(i as int) + (seq![x@] + s.skip(i as int)));
            return ;
        }
        i += 1;
    }
    proof {
        lemma_placed_skips(s, x@, i as nat);
        assert(s.take(i as int) =~= s);
    }
    list.push(x);
    assert(list.deep_view() =~= s + seq![x@]);
}

/// Whether a list holds a text.
pub fn holds(list: &Vec<String>, x: &str) -> (r: bool)
    ensures
        r == list.deep_view().contains(x@),
{
    let ghost s = list.deep_view();
    let mut i: usize = 0;
    while i < list.len()
        invariant
            s == list.deep_view(),
            i <= list.len(),
            forall|j: int| 0 <= j < i ==> #[trigger] s[j] != x@,
        decreases list.len() - i,
    {
        if same(list[i].as_str(), x) {
            assert(s[i as int] == x@);
            return true;
        }
        i += 1;
    }
    false
}

/// Whether two texts are equal.
pub fn same(a: &str, b: &str) -> (r: bool)
    ensures
        r == (a@ == b@),
{
    a.to_owned() == b.to_owned()
}

/// A text without the white space that it begins with.
pub open spec fn trimmed_start(s: Text) -> Text
    decreases s.len(),
{
    if s.len() > 0 && white(s[0]) {
        trimmed_start(s.skip(1))
    } else {
        s
    }
}

/// A text without the white space that it ends with.
pub open spec fn trimmed_end(s: Text) -> Text
    decreases s.len(),
{
    if s.len() > 0 && white(s.last()) {
        trimmed_end(s.drop_last())
    } else {
        s
    }
}

/// A text without the white space around it.
pub open spec fn trimmed(s: Text) -> Text {
    trimmed_end(trimmed_start(s))
}

/// A text without the white space around it.
pub fn trim(s: &str) -> (r: &str)
    ensures
        r@ == trimmed(s@),
{
    let chars = characters(s);
    let ghost all = s@;
    let mut from: usize = 0;
    assert(all.skip(0) =~= all);
    while from < chars.len() && is_white(chars[from])
        invariant
            from <= chars@.len(),
            chars@ == all,
            trimmed_start(all) == trimmed_start(all.skip(from as int)),
        decreases chars@.len() - from,
    {
        assert(all.skip(from as int).skip(1) =~= all.skip(from + 1));
        assert(all.skip(from as int)[0] == all[from as int]);
        from += 1;
    }
    let ghost rest = all.skip(from as int);
    proof {
        if from < chars@.len() {
            assert(rest[0] == all[from as int]);
        }
        assert(trimmed_start(all) == rest);
        assert(all.subrange(from as int, all.len() as int) =~= rest);
    }
    let mut to: usize = chars.len();
    while from < to && is_white(chars[to - 1])
        invariant
            from <= to <= chars@.len(),
            chars@ == all,
            trimmed_end(rest) == trimmed_end(all.subrange(from as int, to as int)),
        decreases to,
    {
        let ghost part = all.subrange(from as int, to as int);
        assert(part.last() == all[to - 1]);
        assert(part.drop_last() =~= all.subrange(from as int, to - 1));
        to -= 1;
    }
    proof {
        let part = all.subrange(from as int, to as int);
        if from < to {
            assert(part.last() == all[to - 1]);
        }
        assert(trimmed_end(part) == part);
    }
    s.substring_char(from, to)
}

/// Whether a text occurs in another.
pub open spec fn occurs(s: Text, part: Text) -> bool {
    exists|i: int|
        0 <= i <= s.len() - part.len() && #[trigger] s.subrange(i, i + part.len()) == part
}

/// Whether a text occurs in another.
pub fn has_part(s: &str, part: &str) -> (r: bool)
    ensures
        r == occurs(s@, part@),
{
    let a = characters(s);
    let b = characters(part);
    let ghost (x, y) = (s@, part@);
    if a.len() < b.len() {
        return false;
    }
    let last: usize = a.len() - b.len();
    let mut i: usize = 0;
    loop
        invariant
            a@ == x,
            b@ == y,
            s@ == x,
            part@ == y,
            last == x.len() - y.len(),
            x.len() <= usize::MAX,
            i <= last,
            forall|k: int| 0 <= k < i ==> #[trigger] x.subrange(k, k + y.len()) != y,
        decreases last - i,
    {
        let mut j: usize = 0;
        while j < b.len() && a[i + j] == b[j]
            invariant
                a@ == x,
                b@ == y,
                last == x.len() - y.len(),
                x.len() <= usize::MAX,
                i <= last,
                j <= b@.len(),
                forall|k: int| 0 <= k < j ==> x[i + k] == y[k],
            decreases b@.len() - j,
        {
            j += 1;
        }
        if j == b.len() {
            assert(x.subrange(i as int, i + y.len()) =~= y);
            return true;
        }
        assert(x.subrange(i as int, i + y.len())[j as int] != y[j as int]);
        if i == last {
            return false;
        }
        i += 1;
    }
}

/// Texts in a row, with another text between them.
pub open spec fn joined(items: Seq<Text>, between: Text) -> Text
    decreases items.len(),
{
    if items.len() == 0 {
        Seq::empty()
    } else if items.len() == 1 {
        items[0]
    } else {
        joined(items.drop_last(), between) + between + items.last()
    }
}

/// Texts in a row, with another text between them.
pub fn join(items: &Vec<String>, between: &str) -> (r: String)
    ensures
        r@ == joined(items.deep_view(), between@),
{
    let ghost all = items.deep_view();
    let mut out = String::new();
    let mut i: usize = 0;
    assert(all.take(0) =~= Seq::<Text>::empty());
    while i < items.len()
        invariant
            i <= items@.len(),
            all == items.deep_view(),
            out@ == joined(all.take(i as int), between@),
        decreases items@.len() - i,
    {
        let ghost next = all.take(i + 1);
        assert(next.drop_last() =~= all.take(i as int));
        assert(next.last() == items@[i as int]@);
        if i > 0 {
            out.append(between);
        }
        out.append(items[i].as_str());
        proof {
            if i == 0 {
                assert(out@ =~= next[0]);
            }
        }
        i += 1;
    }
    assert(all.take(all.len() as int) =~= all);
    out
}

/// The text that std's `Debug` prints for a text: in double quotes, with escapes.
pub uninterp spec fn quoted(s: Text) -> Text;

/// `<str as core::fmt::Debug>::fmt`: what it prints is a function of the text.
#[verifier::external_body]
pub(crate) fn quote(s: &str) -> (r: String)
    ensures
        r@ == quoted(s@),
{
    format!("{:?}", s)
}

/// `String::push` puts one character behind a text.
pub assume_specification[ std::string::String::push ](s: &mut std::string::String, c: char)
    ensures
        final(s)@ == old(s)@.push(c),
;

/// One text behind another.
pub fn cat2(a: &str, b: &str) -> (r: String)
    ensures
        r@ == a@ + b@,
{
    let mut out: String = a.to_owned();
    out.append(b);
    out
}

/// Three texts in a row.
pub fn cat3(a: &str, b: &str, c: &str) -> (r: String)
    ensures
        r@ == a@ + b@ + c@,
{
    let mut out: String = cat2(a, b);
    out.append(c);
    out
}

/// The decimal digit of a value below ten.
pub open spec fn digit(d: nat) -> char {
    (48 + d) as char
}

/// The decimal numeral of a number, without leading zeros.
pub open spec fn decimal(n: nat) -> Text
    decreases n,
{
    if n < 10 {
        seq![digit(n)]
    } else {
        decimal(n / 10).push(digit(n % 10))
    }
}

fn digit_text(d: u64) -> (r: &'static str)
    requires
        d < 10,
    ensures
        r@ == seq![digit(d as nat)],
{
    proof {
        reveal_strlit("0");
        reveal_strlit("1");
        reveal_strlit("2");
        reveal_strlit("3");
        reveal_strlit("4");
        reveal_strlit("5");
        reveal_strlit("6");
        reveal_strlit("7");
        reveal_strlit("8");
        reveal_strlit("9");
    }
    let r = match d {
        0 => "0",
        1 => "1",
        2 => "2",
        3 => "3",
        4 => "4",
        5 => "5",
        6 => "6",
        7 => "7",
        8 => "8",
        _ => "9",
    };
    assert(r@ =~= seq![digit(d as nat)]);
    r
}

/// The decimal numeral of a number.
pub fn numeral(n: u64) -> (r: String)
    ensures
        r@ == decimal(n as nat),
    decreases n,
{
    if n < 10 {
        return digit_text(n).to_owned();
    }
    let mut out: String = numeral(n / 10);
    out.append(digit_text(n % 10));
    assert(out@ =~= decimal(n as nat));
    out
}

/// Different numbers have different numerals.
pub proof fn decimal_is_injective(a: nat, b: nat)
    ensures
        decimal(a) == decimal(b) ==> a == b,
    decreases a,
{
    if decimal(a) == decimal(b) {
        lemma_decimal_length(a);
        lemma_decimal_length(b);
        let (x, y) = (decimal(a), decimal(b));
        assert(x.last() == y.last());
        assert(digit(a % 10) == digit(b % 10));
        if a >= 10 && b >= 10 {
            assert(x.drop_last() =~= decimal(a / 10));
            assert(y.drop_last() =~= decimal(b / 10));
            decimal_is_injective(a / 10, b / 10);
        }
    }
}

proof fn lemma_decimal_length(n: nat)
    ensures
        decimal(n).len() >= 1,
        n >= 10 <==> decimal(n).len() >= 2,
    decreases n,
{
    if n >= 10 {
        lemma_decimal_length(n / 10);
    }
}

/// A character that is a decimal digit.
pub open spec fn is_digit(c: char) -> bool {
    '0' <= c <= '9'
}

/// One decimal digit or more and nothing else.
pub open spec fn all_digits(s: Text) -> bool {
    s.len() > 0 && forall|i: int| 0 <= i < s.len() ==> is_digit(#[trigger] s[i])
}

/// The number that decimal digits write.
pub open spec fn digits_value(s: Text) -> nat
    decreases s.len(),
{
    if s.len() == 0 {
        0
    } else {
        digits_value(s.drop_last()) * 10 + (s.last() as int - 48) as nat
    }
}

/// The digits of an unsigned number that may carry a plus sign.
pub open spec fn unsigned_digits(s: Text) -> Text {
    if s.len() > 0 && s[0] == '+' {
        s.skip(1)
    } else {
        s
    }
}

/// The 32-bit number that a text writes, if it writes one.
pub open spec fn written_u32(s: Text) -> Option<u32> {
    let d = unsigned_digits(s);
    if all_digits(d) && digits_value(d) <= u32::MAX {
        Some(digits_value(d) as u32)
    } else {
        None
    }
}

proof fn lemma_digits_value_grows(s: Text, n: int)
    requires
        0 <= n <= s.len(),
    ensures
        digits_value(s.take(n)) <= digits_value(s),
    decreases s.len(),
{
    if n == s.len() {
        assert(s.take(n) =~= s);
    } else {
        lemma_digits_value_grows(s.drop_last(), n);
        assert(s.drop_last().take(n) =~= s.take(n));
    }
}

/// Reads a 32-bit number.
pub fn read_u32(s: &str) -> (r: Option<u32>)
    ensures
        r == written_u32(s@),
{
    let x: Vec<char> = characters(s);
    let start: usize = if x.len() > 0 && x[0] == '+' { 1 } else { 0 };
    let ghost d = unsigned_digits(s@);
    assert(d =~= x@.skip(start as int));
    if start == x.len() {
        return None;
    }
    let mut value: u32 = 0;
    let mut i: usize = start;
    while i < x.len()
        invariant
            start <= i <= x.len(),
            d == unsigned_digits(s@),
            d == x@.skip(start as int),
            forall|j: int| 0 <= j < i - start ==> is_digit(#[trigger] d[j]),
            value == digits_value(d.take(i - start)),
        decreases x.len() - i,
    {
        let c: char = x[i];
        assert(d[i - start] == c);
        if !('0' <= c && c <= '9') {
            assert(!is_digit(d[i - start]));
            return None;
        }
        let n: u32 = c as u32 - 48;
        proof {
            assert(d.take(i - start + 1).drop_last() =~= d.take(i - start));
            lemma_digits_value_grows(d, i - start + 1);
        }
        if value > (u32::MAX - n) / 10 {
            assert(digits_value(d.take(i - start + 1)) > u32::MAX);
            return None;
        }
        value = value * 10 + n;
        i += 1;
    }
    assert(d.take(d.len() as int) =~= d);
    Some(value)
}

/// A numeral is made of digits, which write the number.
pub proof fn decimal_is_digits(n: nat)
    ensures
        all_digits(decimal(n)),
        digits_value(decimal(n)) == n,
    decreases n,
{
    if n < 10 {
        assert(decimal(n).drop_last() =~= Seq::<char>::empty());
        assert(digits_value(decimal(n).drop_last()) == 0);
    } else {
        decimal_is_digits(n / 10);
        assert(decimal(n).drop_last() =~= decimal(n / 10));
    }
}

/// Reading the numeral of a number gives the number back.
pub proof fn read_undoes_numeral(n: u32)
    ensures
        written_u32(decimal(n as nat)) == Some(n),
{
    decimal_is_digits(n as nat);
    assert(is_digit(decimal(n as nat)[0]));
}

/// Whether a part of a text is what is left of it without the white space around it: only white
/// space is taken away, and none is left at the ends.
pub open spec fn trimmed_to(s: Text, from: int, to: int) -> bool {
    &&& 0 <= from <= to <= s.len()
    &&& forall|i: int| 0 <= i < from ==> white(#[trigger] s[i])
    &&& forall|i: int| to <= i < s.len() ==> white(#[trigger] s[i])
    &&& from < to ==> !white(s[from]) && !white(s[to - 1])
}

proof fn lemma_trimmed_start(s: Text) -> (from: int)
    ensures
        0 <= from <= s.len(),
        trimmed_start(s) == s.skip(from),
        forall|i: int| 0 <= i < from ==> white(#[trigger] s[i]),
        from < s.len() ==> !white(s[from]),
    decreases s.len(),
{
    if s.len() > 0 && white(s[0]) {
        let rest = lemma_trimmed_start(s.skip(1));
        assert(s.skip(1).skip(rest) =~= s.skip(rest + 1));
        assert forall|i: int| 0 <= i < rest + 1 implies white(#[trigger] s[i]) by {
            if i > 0 {
                assert(s.skip(1)[i - 1] == s[i]);
            }
        }
        if rest + 1 < s.len() {
            assert(s.skip(1)[rest] == s[rest + 1]);
        }
        rest + 1
    } else {
        assert(s.skip(0) =~= s);
        0
    }
}

proof fn lemma_trimmed_end(s: Text) -> (to: int)
    ensures
        0 <= to <= s.len(),
        trimmed_end(s) == s.take(to),
        forall|i: int| to <= i < s.len() ==> white(#[trigger] s[i]),
        to > 0 ==> !white(s[to - 1]),
    decreases s.len(),
{
    if s.len() > 0 && white(s.last()) {
        let to = lemma_trimmed_end(s.drop_last());
        assert(s.drop_last().take(to) =~= s.take(to));
        assert forall|i: int| to <= i < s.len() implies white(#[trigger] s[i]) by {
            if i < s.len() - 1 {
                assert(s.drop_last()[i] == s[i]);
            }
        }
        if to > 0 {
            assert(s.drop_last()[to - 1] == s[to - 1]);
        }
        to
    } else {
        assert(s.take(s.len() as int) =~= s);
        s.len() as int
    }
}

/// Trimming takes away the white space around a text and nothing else.
pub proof fn trimming_takes_only_white_space(s: Text)
    ensures
        exists|from: int, to: int| #[trigger]
            trimmed_to(s, from, to) && trimmed(s) == s.subrange(from, to),
{
    let from = lemma_trimmed_start(s);
    let rest = trimmed_start(s);
    let to = lemma_trimmed_end(rest);
    assert(rest.take(to) =~= s.subrange(from, from + to));
    assert forall|i: int| from + to <= i < s.len() implies white(#[trigger] s[i]) by {
        assert(rest[i - from] == s[i]);
    }
    if to > 0 {
        assert(rest[to - 1] == s[from + to - 1]);
        if from < s.len() {
            assert(!white(s[from]));
        }
    }
    assert(trimmed_to(s, from, from + to));
}

/// Nothing is left of a text that is nothing but white space, and something is of every other.
pub proof fn blank_texts_are_trimmed_away(s: Text)
    ensures
        trimmed(s).len() == 0 <==> forall|i: int| 0 <= i < s.len() ==> white(#[trigger] s[i]),
{
    trimming_takes_only_white_space(s);
    let (from, to) = choose|from: int, to: int| #[trigger]
        trimmed_to(s, from, to) && trimmed(s) == s.subrange(from, to);
    assert(trimmed(s).len() == to - from);
}

/// A text occurs in another exactly if the other is that text with something before and behind.
pub proof fn parts_occur_in_the_whole(s: Text, part: Text)
    ensures
        occurs(s, part) <==> exists|head: Text, tail: Text| s == #[trigger] (head + part + tail),
{
    if occurs(s, part) {
        let i = choose|i: int|
            0 <= i <= s.len() - part.len() && #[trigger] s.subrange(i, i + part.len()) == part;
        let head = s.take(i);
        let tail = s.skip(i + part.len());
        assert(s =~= head + part + tail) by {
            assert forall|k: int| 0 <= k < s.len() implies s[k] == (head + part + tail)[k] by {
                if i <= k < i + part.len() {
                    assert(s.subrange(i, i + part.len())[k - i] == s[k]);
                }
            }
        }
    }
    if exists|head: Text, tail: Text| s == #[trigger] (head + part + tail) {
        let (head, tail) = choose|head: Text, tail: Text| s == #[trigger] (head + part + tail);
        let i = head.len() as int;
        assert(s.subrange(i, i + part.len()) =~= part);
    }
}

/// Texts are ordered by the first character in which they differ, and before all that they
/// begin.
pub proof fn the_first_difference_orders_texts(
    head: Text,
    a: char,
    b: char,
    rest: Text,
    other: Text,
)
    ensures
        (a as u32) < (b as u32) ==> before(head + seq![a] + rest, head + seq![b] + other),
        before(head, head + seq![a] + rest),
    decreases head.len(),
{
    let x = head + seq![a] + rest;
    let y = head + seq![b] + other;
    if head.len() > 0 {
        the_first_difference_orders_texts(head.skip(1), a, b, rest, other);
        assert(x.skip(1) =~= head.skip(1) + seq![a] + rest);
        assert(y.skip(1) =~= head.skip(1) + seq![b] + other);
        assert(x[0] == head[0] && y[0] == head[0]);
    } else {
        assert(x[0] == a && y[0] == b);
    }
}

/// A numeral is written in digits from the most to the least significant: ten times a number and
/// a digit is the numeral of the number with that digit behind it.
pub proof fn numerals_are_positional(n: nat, d: nat)
    requires
        d < 10,
    ensures
        n > 0 ==> decimal(10 * n + d).len() == decimal(n).len() + 1,
        n > 0 ==> decimal(10 * n + d).drop_last() == decimal(n),
        n == 0 ==> decimal(d).len() == 1,
        decimal(10 * n + d).last() as u32 == 48 + d,
{
    assert((10 * n + d) / 10 == n && (10 * n + d) % 10 == d) by (nonlinear_arith)
        requires
            d < 10,
    ;
    if n > 0 {
        assert(decimal(10 * n + d).drop_last() =~= decimal(n));
    }
}

/// Texts in a row have the separator between them and nowhere else.
pub proof fn joined_texts_are_separated(items: Seq<Text>, item: Text, between: Text)
    ensures
        joined(Seq::empty(), between).len() == 0,
        joined(seq![item], between) == item,
        items.len() > 0 ==> joined(items.push(item), between) == joined(items, between) + between
            + item,
{
    assert(items.push(item).drop_last() =~= items);
}

/// A text is read as a number exactly if it is digits, with or without a plus sign, that write a
/// number of thirty-two bits; each digit counts ten times as much as the one behind it.
pub proof fn numbers_are_read_from_digits(s: Text, digits: Text, digit: char)
    requires
        '0' <= digit <= '9',
    ensures
        written_u32(s) matches Some(n) ==> all_digits(unsigned_digits(s)) && digits_value(
            unsigned_digits(s),
        ) == n,
        all_digits(digits) && digits_value(digits) <= u32::MAX ==> written_u32(digits) == Some(
            digits_value(digits) as u32,
        ) && written_u32(seq!['+'] + digits) == Some(digits_value(digits) as u32),
        all_digits(digits) && digits_value(digits) > u32::MAX ==> written_u32(digits) is None,
        (exists|i: int| 0 < i < s.len() && !('0' <= #[trigger] s[i] <= '9')) ==> written_u32(s)
            is None,
        s.len() == 0 ==> written_u32(s) is None,
        digits_value(digits.push(digit)) == digits_value(digits) * 10 + (digit as int - '0' as int),
        digits_value(Seq::empty()) == 0,
{
    if all_digits(digits) {
        assert(is_digit(digits[0]));
        assert((seq!['+'] + digits).skip(1) =~= digits);
    }
    if exists|i: int| 0 < i < s.len() && !('0' <= #[trigger] s[i] <= '9') {
        let i = choose|i: int| 0 < i < s.len() && !('0' <= #[trigger] s[i] <= '9');
        if s[0] == '+' {
            assert(s.skip(1)[i - 1] == s[i]);
            assert(!is_digit(s.skip(1)[i - 1]));
        } else {
            assert(!is_digit(s[i]));
        }
    }
    assert(digits.push(digit).drop_last() =~= digits);
}

} // verus!
