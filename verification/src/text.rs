//! Text as a sequence of characters: trimming, splitting, comparing and
//! rendering, each stated over `Seq<char>`.
use vstd::prelude::*;

verus! {

/// Whether `c` has the Unicode `White_Space` property.
pub open spec fn white_space(c: char) -> bool {
    ||| 0x9 <= c as int <= 0xd
    ||| c as int == 0x20
    ||| c as int == 0x85
    ||| c as int == 0xa0
    ||| c as int == 0x1680
    ||| 0x2000 <= c as int <= 0x200a
    ||| c as int == 0x2028
    ||| c as int == 0x2029
    ||| c as int == 0x202f
    ||| c as int == 0x205f
    ||| c as int == 0x3000
}

/// Whether `c` has the Unicode `White_Space` property.
pub fn is_white_space(c: char) -> (r: bool)
    ensures
        r == white_space(c),
{
    let code: u32 = c as u32;
    (0x9 <= code && code <= 0xd) || code == 0x20 || code == 0x85 || code == 0xa0 || code == 0x1680
        || (0x2000 <= code && code <= 0x200a) || code == 0x2028 || code == 0x2029 || code == 0x202f
        || code == 0x205f || code == 0x3000
}

/// `s` without its leading white space.
pub open spec fn trimmed_start(s: Seq<char>) -> Seq<char>
    decreases s.len(),
{
    if s.len() > 0 && white_space(s[0]) {
        trimmed_start(s.drop_first())
    } else {
        s
    }
}

/// `s` without its trailing white space.
pub open spec fn trimmed_end(s: Seq<char>) -> Seq<char>
    decreases s.len(),
{
    if s.len() > 0 && white_space(s.last()) {
        trimmed_end(s.drop_last())
    } else {
        s
    }
}

/// `s` without its leading and trailing white space.
pub open spec fn trimmed(s: Seq<char>) -> Seq<char> {
    trimmed_end(trimmed_start(s))
}

/// Whether nothing is left of `s` once it is trimmed.
pub open spec fn blank(s: Seq<char>) -> bool {
    trimmed(s).len() == 0
}

/// The text of each string of a list, in order.
pub open spec fn texts(list: Seq<String>) -> Seq<Seq<char>> {
    list.map_values(|s: String| s@)
}

/// The text of a string that may be absent.
pub open spec fn opt_text(s: Option<String>) -> Option<Seq<char>> {
    match s {
        Some(s) => Some(s@),
        None => None,
    }
}

/// A text is blank exactly when every one of its characters is white space.
pub proof fn blank_means_all_white_space(s: Seq<char>)
    ensures
        blank(s) <==> (forall|i: int| 0 <= i < s.len() ==> white_space(#[trigger] s[i])),
{
    lemma_trimmed_start(s);
    lemma_trimmed_end(trimmed_start(s));
    let t = trimmed_start(s);
    if blank(s) {
        assert forall|i: int| 0 <= i < s.len() implies white_space(#[trigger] s[i]) by {
            if i >= s.len() - t.len() {
                assert(t[i - (s.len() - t.len())] == s[i]);
            }
        }
    }
    if forall|i: int| 0 <= i < s.len() ==> white_space(#[trigger] s[i]) {
        if t.len() > 0 {
            assert(t[0] == s[s.len() - t.len()]);
        }
    }
}

/// Trimming twice is trimming once.
pub proof fn trimming_is_idempotent(s: Seq<char>)
    ensures
        trimmed(trimmed(s)) == trimmed(s),
{
    let t = trimmed_start(s);
    lemma_trimmed_start(s);
    lemma_trimmed_end(t);
    let u = trimmed_end(t);
    if u.len() > 0 {
        assert(u[0] == t[0]);
    }
}

/// What is left of a text by dropping its leading white space is a suffix of
/// it that starts with something else.
pub proof fn lemma_trimmed_start(s: Seq<char>)
    ensures
        trimmed_start(s).len() <= s.len(),
        trimmed_start(s) == s.skip(s.len() - trimmed_start(s).len()),
        forall|i: int|
            0 <= i < s.len() - trimmed_start(s).len() ==> white_space(#[trigger] s[i]),
        trimmed_start(s).len() > 0 ==> !white_space(trimmed_start(s)[0]),
    decreases s.len(),
{
    if s.len() > 0 && white_space(s[0]) {
        let rest = s.drop_first();
        lemma_trimmed_start(rest);
        let t = trimmed_start(s);
        assert(t =~= s.skip(s.len() - t.len()));
        assert forall|i: int| 0 <= i < s.len() - t.len() implies white_space(#[trigger] s[i]) by {
            if i > 0 {
                assert(rest[i - 1] == s[i]);
            }
        }
    } else {
        assert(s =~= s.skip(0));
    }
}

/// What is left of a text by dropping its trailing white space is a prefix of
/// it that ends with something else.
pub proof fn lemma_trimmed_end(s: Seq<char>)
    ensures
        trimmed_end(s).len() <= s.len(),
        trimmed_end(s) == s.take(trimmed_end(s).len() as int),
        forall|i: int| trimmed_end(s).len() <= i < s.len() ==> white_space(#[trigger] s[i]),
        trimmed_end(s).len() > 0 ==> !white_space(trimmed_end(s).last()),
    decreases s.len(),
{
    if s.len() > 0 && white_space(s.last()) {
        let rest = s.drop_last();
        lemma_trimmed_end(rest);
        let t = trimmed_end(s);
        assert(t =~= s.take(t.len() as int));
        assert forall|i: int| t.len() <= i < s.len() implies white_space(#[trigger] s[i]) by {
            if i < s.len() - 1 {
                assert(rest[i] == s[i]);
            }
        }
    } else {
        assert(s =~= s.take(s.len() as int));
    }
}

/// The characters of `text`, in order.
pub fn chars_of(text: &str) -> (chars: Vec<char>)
    ensures
        chars@ == text@,
{
    let mut chars: Vec<char> = Vec::new();
    for c in it: text.chars()
        invariant
            chars@ == text@.take(it.index() as int),
            it.seq() == text@,
    {
        chars.push(c);
        proof {
            let n = it.index() as int;
            assert(text@.take(n + 1) =~= text@.take(n).push(text@[n]));
        }
    }
    assert(text@.take(text@.len() as int) =~= text@);
    chars
}

/// The text made of the characters from `from` up to, not including, `to`.
pub fn text_of(chars: &Vec<char>, from: usize, to: usize) -> (text: String)
    requires
        from <= to <= chars@.len(),
    ensures
        text@ == chars@.subrange(from as int, to as int),
{
    let mut text = String::new();
    let mut i: usize = from;
    while i < to
        invariant
            from <= i <= to <= chars@.len(),
            text@ == chars@.subrange(from as int, i as int),
        decreases to - i,
    {
        text.push(chars[i]);
        proof {
            assert(chars@.subrange(from as int, i + 1) =~= chars@.subrange(
                from as int,
                i as int,
            ).push(chars@[i as int]));
        }
        i = i + 1;
    }
    text
}

/// Whether two texts hold the same characters.
pub fn same_text(a: &str, b: &str) -> (r: bool)
    ensures
        r == (a@ == b@),
{
    let left = chars_of(a);
    let right = chars_of(b);
    same_chars(&left, &right)
}

/// Whether two character lists are equal.
pub fn same_chars(left: &Vec<char>, right: &Vec<char>) -> (r: bool)
    ensures
        r == (left@ == right@),
{
    if left.len() != right.len() {
        return false;
    }
    let mut i: usize = 0;
    while i < left.len()
        invariant
            i <= left@.len() == right@.len(),
            forall|j: int| 0 <= j < i ==> left@[j] == right@[j],
        decreases left@.len() - i,
    {
        if left[i] != right[i] {
            return false;
        }
        i = i + 1;
    }
    assert(left@ =~= right@);
    true
}

/// Whether two lists hold the same texts in the same order.
pub fn same_texts(left: &Vec<String>, right: &Vec<String>) -> (r: bool)
    ensures
        r == (texts(left@) == texts(right@)),
{
    if left.len() != right.len() {
        assert(texts(left@).len() != texts(right@).len());
        return false;
    }
    let mut i: usize = 0;
    while i < left.len()
        invariant
            i <= left@.len() == right@.len(),
            forall|j: int| 0 <= j < i ==> (#[trigger] left@[j])@ == right@[j]@,
        decreases left@.len() - i,
    {
        if left[i] != right[i] {
            assert(texts(left@)[i as int] != texts(right@)[i as int]);
            return false;
        }
        i = i + 1;
    }
    assert(texts(left@) =~= texts(right@));
    true
}

/// One text made of three.
pub fn text3(a: &str, b: &str, c: &str) -> (text: String)
    ensures
        text@ == a@ + b@ + c@,
{
    let mut text = a.to_owned();
    text.push_str(b);
    text.push_str(c);
    text
}

/// One text made of two.
pub fn text2(a: &str, b: &str) -> (text: String)
    ensures
        text@ == a@ + b@,
{
    let mut text = a.to_owned();
    text.push_str(b);
    text
}

/// One text made of four.
pub fn text4(a: &str, b: &str, c: &str, d: &str) -> (text: String)
    ensures
        text@ == a@ + b@ + c@ + d@,
{
    let mut text = text3(a, b, c);
    text.push_str(d);
    text
}

/// One text made of five.
pub fn text5(a: &str, b: &str, c: &str, d: &str, e: &str) -> (text: String)
    ensures
        text@ == a@ + b@ + c@ + d@ + e@,
{
    let mut text = text3(a, b, c);
    text.push_str(d);
    text.push_str(e);
    text
}

/// The position of the first occurrence of `needle` in `hay`, if there is one.
pub open spec fn first_at(hay: Seq<char>, needle: Seq<char>) -> Option<int>
    decreases hay.len(),
{
    if needle.is_prefix_of(hay) {
        Some(0int)
    } else if hay.len() == 0 {
        None
    } else {
        match first_at(hay.drop_first(), needle) {
            Some(at) => Some(at + 1),
            None => None,
        }
    }
}

/// Whether `needle` stands in `hay` at position `at`.
pub open spec fn stands_at(hay: Seq<char>, needle: Seq<char>, at: int) -> bool {
    &&& 0 <= at
    &&& at + needle.len() <= hay.len()
    &&& hay.subrange(at, at + needle.len()) == needle
}

/// The first occurrence is one, and nothing before it is.
pub proof fn lemma_first_at(hay: Seq<char>, needle: Seq<char>)
    ensures
        match first_at(hay, needle) {
            Some(at) => stands_at(hay, needle, at) && forall|i: int|
                0 <= i < at ==> !stands_at(hay, needle, i),
            None => forall|i: int| !stands_at(hay, needle, i),
        },
    decreases hay.len(),
{
    assert(needle.is_prefix_of(hay) <==> stands_at(hay, needle, 0)) by {
        if needle.is_prefix_of(hay) {
            assert(hay.subrange(0, needle.len() as int) =~= needle);
        }
    }
    if !needle.is_prefix_of(hay) && hay.len() > 0 {
        let rest = hay.drop_first();
        lemma_first_at(rest, needle);
        assert forall|i: int| 0 < i implies stands_at(hay, needle, i) == stands_at(
            rest,
            needle,
            i - 1,
        ) by {
            if i + needle.len() <= hay.len() {
                assert(hay.subrange(i, i + needle.len()) =~= rest.subrange(
                    i - 1,
                    i - 1 + needle.len(),
                ));
            }
        }
        match first_at(rest, needle) {
            Some(at) => {
                assert(stands_at(hay, needle, at + 1));
                assert forall|i: int| 0 <= i < at + 1 implies !stands_at(hay, needle, i) by {
                    if i > 0 {
                        assert(!stands_at(rest, needle, i - 1));
                    }
                }
            },
            None => {
                assert forall|i: int| !stands_at(hay, needle, i) by {
                    if i > 0 {
                        assert(!stands_at(rest, needle, i - 1));
                    }
                }
            },
        }
    }
}

/// Whether `needle` stands in `hay` at position `at`.
fn matches_at(hay: &Vec<char>, needle: &Vec<char>, at: usize) -> (r: bool)
    requires
        at + needle@.len() <= hay@.len(),
    ensures
        r == stands_at(hay@, needle@, at as int),
{
    let size: usize = hay.len();
    let mut i: usize = 0;
    while i < needle.len()
        invariant
            i <= needle@.len(),
            at + needle@.len() <= hay@.len() == size,
            forall|j: int| 0 <= j < i ==> hay@[at + j] == needle@[j],
        decreases needle@.len() - i,
    {
        if hay[at + i] != needle[i] {
            assert(hay@.subrange(at as int, at + needle@.len())[i as int] != needle@[i as int]);
            return false;
        }
        i = i + 1;
    }
    assert(hay@.subrange(at as int, at + needle@.len()) =~= needle@);
    true
}

/// Finds the first occurrence of `needle` in `hay`.
pub fn find(hay: &Vec<char>, needle: &Vec<char>) -> (r: Option<usize>)
    ensures
        match r {
            Some(at) => first_at(hay@, needle@) == Some(at as int),
            None => first_at(hay@, needle@) is None,
        },
{
    proof {
        lemma_first_at(hay@, needle@);
    }
    if needle.len() > hay.len() {
        return None;
    }
    let last: usize = hay.len() - needle.len();
    let mut at: usize = 0;
    while at <= last
        invariant
            at <= last + 1,
            last == hay@.len() - needle@.len(),
            forall|i: int| 0 <= i < at ==> !stands_at(hay@, needle@, i),
        decreases last + 1 - at,
    {
        proof {
            lemma_first_at(hay@, needle@);
        }
        if matches_at(hay, needle, at) {
            return Some(at);
        }
        if at == last {
            return None;
        }
        at = at + 1;
    }
    None
}

/// The decimal digit for `d`.
pub open spec fn digit(d: nat) -> char {
    ('0' as int + d) as char
}

/// `n` in decimal, without leading zeros.
pub open spec fn decimal_text(n: nat) -> Seq<char>
    decreases n,
{
    if n < 10 {
        seq![digit(n)]
    } else {
        decimal_text(n / 10).push(digit(n % 10))
    }
}

/// Renders `n` in decimal.
pub fn decimal(n: u64) -> (text: String)
    ensures
        text@ == decimal_text(n as nat),
    decreases n,
{
    if n < 10 {
        let mut text = String::new();
        text.push(digit_of(n as u8));
        assert(text@ =~= decimal_text(n as nat));
        text
    } else {
        let mut text = decimal(n / 10);
        text.push(digit_of((n % 10) as u8));
        text
    }
}

/// The decimal digit for `d`.
fn digit_of(d: u8) -> (c: char)
    requires
        d < 10,
    ensures
        c == digit(d as nat),
{
    (48u8 + d) as char
}

/// Every character of a decimal text is a digit, and there is at least one.
pub proof fn lemma_decimal_digits(n: nat)
    ensures
        decimal_text(n).len() > 0,
        forall|i: int|
            0 <= i < decimal_text(n).len() ==> '0' <= #[trigger] decimal_text(n)[i] <= '9',
    decreases n,
{
    if n >= 10 {
        lemma_decimal_digits(n / 10);
    }
}

/// Two numbers with the same decimal text are equal.
pub proof fn decimal_is_injective(a: nat, b: nat)
    requires
        decimal_text(a) == decimal_text(b),
    ensures
        a == b,
    decreases a,
{
    lemma_decimal_digits(a / 10);
    lemma_decimal_digits(b / 10);
    assert forall|d: nat| d < 10 implies #[trigger] digit(d) as int == '0' as int + d by {}
    if a < 10 && b < 10 {
        assert(decimal_text(a)[0] == digit(a));
        assert(decimal_text(b)[0] == digit(b));
    } else if a >= 10 && b >= 10 {
        assert(decimal_text(a).drop_last() =~= decimal_text(a / 10));
        assert(decimal_text(b).drop_last() =~= decimal_text(b / 10));
        decimal_is_injective(a / 10, b / 10);
        assert(decimal_text(a).last() == digit(a % 10));
        assert(decimal_text(b).last() == digit(b % 10));
        assert(a % 10 == b % 10);
    } else {
        assert(decimal_text(a).len() != decimal_text(b).len());
    }
}

/// A character in lower case, where it is an ASCII letter.
pub open spec fn lower(c: char) -> char {
    if 'A' <= c <= 'Z' {
        (c as int + 32) as char
    } else {
        c
    }
}

/// A text with its ASCII letters in lower case.
pub open spec fn lower_text(s: Seq<char>) -> Seq<char> {
    s.map_values(|c: char| lower(c))
}

/// A text with its ASCII letters in lower case.
pub fn lowered(text: &str) -> (r: String)
    ensures
        r@ == lower_text(text@),
{
    let chars = chars_of(text);
    let mut low: Vec<char> = Vec::new();
    let mut at: usize = 0;
    while at < chars.len()
        invariant
            at <= chars@.len(),
            low@.len() == at,
            forall|i: int| 0 <= i < at ==> #[trigger] low@[i] == lower(chars@[i]),
        decreases chars@.len() - at,
    {
        let c = chars[at];
        if 'A' <= c && c <= 'Z' {
            low.push((c as u8 + 32) as char);
        } else {
            low.push(c);
        }
        at += 1;
    }
    proof {
        assert(low@ =~= lower_text(text@));
        assert(low@.subrange(0, low@.len() as int) =~= low@);
    }
    text_of(&low, 0, low.len())
}

/// The number that a text of decimal digits stands for; `None` where it is
/// empty or holds anything else.
pub open spec fn number_of(s: Seq<char>) -> Option<nat>
    decreases s.len(),
{
    if s.len() == 0 || !('0' <= s.last() <= '9') {
        None
    } else if s.len() == 1 {
        Some((s.last() as int - '0' as int) as nat)
    } else {
        match number_of(s.drop_last()) {
            Some(n) => Some(10 * n + (s.last() as int - '0' as int) as nat),
            None => None,
        }
    }
}

/// A number is read back from its decimal text.
pub proof fn decimal_is_read_back(n: nat)
    ensures
        number_of(decimal_text(n)) == Some(n),
    decreases n,
{
    assert forall|d: nat| d < 10 implies #[trigger] digit(d) as int == '0' as int + d by {}
    lemma_decimal_digits(n);
    if n < 10 {
        assert(decimal_text(n).last() == digit(n));
    } else {
        decimal_is_read_back(n / 10);
        assert(decimal_text(n).drop_last() =~= decimal_text(n / 10));
        assert(decimal_text(n).last() == digit(n % 10));
        lemma_decimal_digits(n / 10);
    }
}

/// A prefix of a number stands for no more than the number.
proof fn lemma_number_grows(s: Seq<char>, k: int)
    requires
        0 < k <= s.len(),
        number_of(s) is Some,
    ensures
        number_of(s.take(k)) matches Some(n) && n <= number_of(s)->Some_0,
    decreases s.len(),
{
    if k == s.len() {
        assert(s.take(k) =~= s);
    } else {
        lemma_number_grows(s.drop_last(), k);
        assert(s.drop_last().take(k) =~= s.take(k));
    }
}

/// Reads a text of decimal digits; `None` where it is no such text or stands
/// for more than fits.
pub fn read_number(text: &str) -> (r: Option<u64>)
    ensures
        match r {
            Some(n) => number_of(text@) == Some(n as nat),
            None => match number_of(text@) {
                Some(n) => n > u64::MAX,
                None => true,
            },
        },
{
    let chars = chars_of(text);
    if chars.len() == 0 {
        return None;
    }
    let mut n: u64 = 0;
    let mut at: usize = 0;
    while at < chars.len()
        invariant
            chars@ == text@,
            chars@.len() > 0,
            at <= chars@.len(),
            at == 0 ==> n == 0,
            at > 0 ==> number_of(chars@.take(at as int)) == Some(n as nat),
        decreases chars@.len() - at,
    {
        let c = chars[at];
        let ghost head = chars@.take(at + 1);
        proof {
            assert(head.last() == c);
            assert(head.drop_last() =~= chars@.take(at as int));
            if number_of(chars@) is Some {
                lemma_number_grows(chars@, at + 1);
            }
        }
        if !('0' <= c && c <= '9') {
            return None;
        }
        let digit: u64 = (c as u8 - 48) as u64;
        if n > (u64::MAX - digit) / 10 {
            proof {
                assert(number_of(head) is Some);
                assert(number_of(head)->Some_0 > u64::MAX) by {
                    assert(10 * n + digit > u64::MAX);
                }
            }
            return None;
        }
        n = n * 10 + digit;
        at += 1;
    }
    proof {
        assert(chars@.take(at as int) =~= chars@);
    }
    Some(n)
}

} // verus!
