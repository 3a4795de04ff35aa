//! Text as sequences of characters: white space, letter case, prefixes and the order of strings.
use vstd::prelude::*;
use vstd::string::*;

verus! {

/// `str == str`: true exactly when the two hold the same characters.
pub assume_specification[ <str as PartialEq<str>>::eq ](s: &str, other: &str) -> (equal: bool)
    ensures
        equal == (s@ == other@),
;

/// `String::push`: puts one character at the end of the string.
pub assume_specification[ String::push ](s: &mut String, c: char)
    ensures
        final(s)@ == old(s)@.push(c),
;

/// The characters with the Unicode property White_Space.
pub open spec fn white_space(c: char) -> bool {
    let n = c as u32;
    ||| 0x9 <= n <= 0xd
    ||| n == 0x20
    ||| n == 0x85
    ||| n == 0xa0
    ||| n == 0x1680
    ||| 0x2000 <= n <= 0x200a
    ||| n == 0x2028
    ||| n == 0x2029
    ||| n == 0x202f
    ||| n == 0x205f
    ||| n == 0x3000
}

/// `s` without the white space in front.
pub open spec fn trim_front(s: Seq<char>) -> Seq<char>
    decreases s.len(),
{
    if s.len() > 0 && white_space(s.first()) {
        trim_front(s.drop_first())
    } else {
        s
    }
}

/// `s` without the white space at its end.
pub open spec fn trim_back(s: Seq<char>) -> Seq<char>
    decreases s.len(),
{
    if s.len() > 0 && white_space(s.last()) {
        trim_back(s.drop_last())
    } else {
        s
    }
}

/// `s` without the white space at both ends.
pub open spec fn trimmed(s: Seq<char>) -> Seq<char> {
    trim_back(trim_front(s))
}

/// Nothing but white space.
pub open spec fn blank(s: Seq<char>) -> bool {
    forall|i: int| 0 <= i < s.len() ==> white_space(#[trigger] s[i])
}

/// `A` to `Z` as `a` to `z`, every other character as it is.
pub open spec fn lower_char(c: char) -> char {
    if 'A' <= c <= 'Z' {
        (c as u32 + 32) as char
    } else {
        c
    }
}

/// `s` with its ASCII letters in lower case.
pub open spec fn lowered(s: Seq<char>) -> Seq<char> {
    s.map_values(|c: char| lower_char(c))
}

/// `a` and `b` agree on the first `k` characters, and there `a` ends or has the smaller character.
pub open spec fn parts_at(a: Seq<char>, b: Seq<char>, k: int) -> bool {
    &&& 0 <= k <= a.len()
    &&& k < b.len()
    &&& forall|i: int| 0 <= i < k ==> a[i] == b[i]
    &&& k < a.len() ==> a[k] < b[k]
}

/// `a` stands before `b` in the order of strings: by code point, a prefix first.
pub open spec fn before(a: Seq<char>, b: Seq<char>) -> bool {
    exists|k: int| parts_at(a, b, k)
}

/// The characters of `s`, one by one.
pub fn chars_of(s: &str) -> (chars: Vec<char>)
    ensures
        chars@ == s@,
{
    let mut chars: Vec<char> = Vec::new();
    for c in iter: s.chars()
        invariant
            iter.seq() == s@,
            chars@ == s@.take(iter.index() as int),
    {
        chars.push(c);
    }
    assert(s@.take(s@.len() as int) =~= s@);
    chars
}

/// Whether two strings hold the same characters.
pub fn same(a: &str, b: &str) -> (equal: bool)
    ensures
        equal == (a@ == b@),
{
    *a == *b
}

/// Whether `c` is white space.
pub fn is_white_space(c: char) -> (white: bool)
    ensures
        white == white_space(c),
{
    let n = c as u32;
    (n >= 0x9 && n <= 0xd) || n == 0x20 || n == 0x85 || n == 0xa0 || n == 0x1680 || (n >= 0x2000
        && n <= 0x200a) || n == 0x2028 || n == 0x2029 || n == 0x202f || n == 0x205f || n == 0x3000
}

/// Which of two strings stands first.
#[derive(Clone, Copy, Debug, PartialEq, Eq, Structural)]
pub enum Place {
    Before,
    Same,
    After,
}

/// The first `k` characters of `s` are the white space that `trim_front` takes off, as long as
/// all of them are white space.
pub proof fn lemma_trim_front_skips(s: Seq<char>, k: int)
    requires
        0 <= k <= s.len(),
        forall|i: int| 0 <= i < k ==> white_space(#[trigger] s[i]),
    ensures
        trim_front(s) == trim_front(s.skip(k)),
    decreases k,
{
    if k > 0 {
        let rest = s.drop_first();
        assert forall|i: int| 0 <= i < k - 1 implies white_space(#[trigger] rest[i]) by {
            assert(rest[i] == s[i + 1]);
        }
        lemma_trim_front_skips(rest, k - 1);
        assert(rest.skip(k - 1) =~= s.skip(k));
    } else {
        assert(s.skip(0) =~= s);
    }
}

/// The same at the end: `trim_back` takes off everything from `k` on that is white space.
pub proof fn lemma_trim_back_takes(s: Seq<char>, k: int)
    requires
        0 <= k <= s.len(),
        forall|i: int| k <= i < s.len() ==> white_space(#[trigger] s[i]),
    ensures
        trim_back(s) == trim_back(s.take(k)),
    decreases s.len() - k,
{
    if k < s.len() {
        let rest = s.drop_last();
        assert forall|i: int| k <= i < rest.len() implies white_space(#[trigger] rest[i]) by {
            assert(rest[i] == s[i]);
        }
        lemma_trim_back_takes(rest, k);
        assert(rest.take(k) =~= s.take(k));
    } else {
        assert(s.take(k) =~= s);
    }
}

/// How many characters of white space stand in front.
fn leading_white_space(chars: &Vec<char>) -> (k: usize)
    ensures
        k <= chars@.len(),
        chars@.skip(k as int) == trim_front(chars@),
        k == chars@.len() <==> blank(chars@),
{
    let mut k: usize = 0;
    while k < chars.len() && is_white_space(chars[k])
        invariant
            k <= chars@.len(),
            forall|i: int| 0 <= i < k ==> white_space(#[trigger] chars@[i]),
        decreases chars@.len() - k,
    {
        k = k + 1;
    }
    proof {
        lemma_trim_front_skips(chars@, k as int);
        if k < chars@.len() {
            assert(chars@.skip(k as int).first() == chars@[k as int]);
        }
    }
    k
}

/// `s` without the white space in front.
pub fn trim_start(s: &str) -> (rest: &str)
    ensures
        rest@ == trim_front(s@),
{
    let chars = chars_of(s);
    let k = leading_white_space(&chars);
    s.substring_char(k, chars.len())
}

/// `s` without the white space at both ends.
pub fn trim(s: &str) -> (rest: &str)
    ensures
        rest@ == trimmed(s@),
{
    let chars = chars_of(s);
    let k = leading_white_space(&chars);
    let mut end: usize = chars.len();
    while end > k && is_white_space(chars[end - 1])
        invariant
            k <= end <= chars@.len(),
            forall|i: int| end <= i < chars@.len() ==> white_space(#[trigger] chars@[i]),
        decreases end,
    {
        end = end - 1;
    }
    proof {
        let front = chars@.skip(k as int);
        assert forall|i: int| end - k <= i < front.len() implies white_space(#[trigger] front[i]) by {
            assert(front[i] == chars@[i + k]);
        }
        lemma_trim_back_takes(front, end - k);
        let kept = front.take(end - k);
        if kept.len() > 0 {
            assert(kept.last() == chars@[end - 1]);
        }
        assert(trim_back(front) == kept);
        assert(kept =~= s@.subrange(k as int, end as int));
    }
    s.substring_char(k, end)
}

/// Whether `s` holds nothing but white space.
pub fn is_blank(s: &str) -> (white: bool)
    ensures
        white == blank(s@),
{
    let chars = chars_of(s);
    leading_white_space(&chars) == chars.len()
}

/// `A` to `Z` as `a` to `z`.
pub fn to_lower_char(c: char) -> (low: char)
    ensures
        low == lower_char(c),
{
    if 'A' <= c && c <= 'Z' {
        ((c as u8) + 32) as char
    } else {
        c
    }
}

/// Whether `s`, its ASCII letters in lower case, begins with `prefix`.
pub fn lower_starts_with(s: &str, prefix: &str) -> (begins: bool)
    ensures
        begins == prefix@.is_prefix_of(lowered(s@)),
{
    let chars = chars_of(s);
    let wanted = chars_of(prefix);
    if chars.len() < wanted.len() {
        return false;
    }
    let mut i: usize = 0;
    while i < wanted.len()
        invariant
            i <= wanted@.len() <= chars@.len(),
            wanted@ == prefix@,
            chars@ == s@,
            forall|j: int| 0 <= j < i ==> wanted@[j] == lower_char(chars@[j]),
        decreases wanted@.len() - i,
    {
        if to_lower_char(chars[i]) != wanted[i] {
            assert(lowered(s@)[i as int] != prefix@[i as int]);
            return false;
        }
        i = i + 1;
    }
    assert(prefix@ =~= lowered(s@).subrange(0, prefix@.len() as int));
    true
}

/// Whether two strings are the same but for the case of their ASCII letters.
pub fn same_ignoring_case(a: &str, b: &str) -> (same: bool)
    ensures
        same == (lowered(a@) == lowered(b@)),
{
    let left = chars_of(a);
    let right = chars_of(b);
    if left.len() != right.len() {
        assert(lowered(a@).len() != lowered(b@).len());
        return false;
    }
    let mut i: usize = 0;
    while i < left.len()
        invariant
            i <= left@.len(),
            left@.len() == right@.len(),
            left@ == a@,
            right@ == b@,
            forall|j: int| 0 <= j < i ==> lower_char(left@[j]) == lower_char(right@[j]),
        decreases left@.len() - i,
    {
        if to_lower_char(left[i]) != to_lower_char(right[i]) {
            assert(lowered(a@)[i as int] != lowered(b@)[i as int]);
            return false;
        }
        i = i + 1;
    }
    assert(lowered(a@) =~= lowered(b@));
    true
}

/// Where `a` stands with regard to `b` in the order of strings.
pub fn place(a: &str, b: &str) -> (p: Place)
    ensures
        p == Place::Same <==> a@ == b@,
        p == Place::Before <==> before(a@, b@),
        p == Place::After <==> before(b@, a@),
{
    let left = chars_of(a);
    let right = chars_of(b);
    let mut i: usize = 0;
    while i < left.len() && i < right.len() && left[i] == right[i]
        invariant
            i <= left@.len(),
            i <= right@.len(),
            forall|j: int| 0 <= j < i ==> left@[j] == right@[j],
        decreases left@.len() - i,
    {
        i = i + 1;
    }
    let p = if i < left.len() {
        if i < right.len() {
            if left[i] < right[i] {
                Place::Before
            } else {
                Place::After
            }
        } else {
            Place::After
        }
    } else {
        if i < right.len() {
            Place::Before
        } else {
            Place::Same
        }
    };
    proof {
        match p {
            Place::Before => {
                assert(parts_at(a@, b@, i as int));
                lemma_before_is_strict(a@, b@);
            },
            Place::After => {
                assert(parts_at(b@, a@, i as int));
                lemma_before_is_strict(b@, a@);
            },
            Place::Same => {
                assert(a@ =~= b@);
                if before(a@, b@) {
                    lemma_before_is_strict(a@, b@);
                }
            },
        }
    }
    p
}

/// Two different strings stand in the order one way only, and none stands before itself.
pub proof fn lemma_before_is_strict(a: Seq<char>, b: Seq<char>)
    requires
        before(a, b),
    ensures
        a != b,
        !before(b, a),
{
    let k = choose|k: int| parts_at(a, b, k);
    if before(b, a) {
        let m = choose|m: int| parts_at(b, a, m);
        if k < m {
            assert(b[k] == a[k]);
        } else if m < k {
            assert(a[m] == b[m]);
        }
    }
    if a == b {
        assert(a[k] == b[k]);
    }
}

/// The order of strings is transitive.
pub proof fn lemma_before_is_transitive(a: Seq<char>, b: Seq<char>, c: Seq<char>)
    requires
        before(a, b),
        before(b, c),
    ensures
        before(a, c),
{
    let k = choose|k: int| parts_at(a, b, k);
    let m = choose|m: int| parts_at(b, c, m);
    let n = if k < m { k } else { m };
    assert(parts_at(a, c, n));
}

/// Of two different strings one stands before the other.
pub proof fn lemma_before_is_total(a: Seq<char>, b: Seq<char>)
    requires
        a != b,
    ensures
        before(a, b) || before(b, a),
{
    let n = if a.len() < b.len() { a.len() as int } else { b.len() as int };
    lemma_parts_somewhere(a, b, n);
}

/// Two strings that differ part at some place, or one is the beginning of the other.
proof fn lemma_parts_somewhere(a: Seq<char>, b: Seq<char>, n: int)
    requires
        a != b,
        0 <= n <= a.len(),
        n <= b.len(),
        n == a.len() || n == b.len(),
    ensures
        before(a, b) || before(b, a),
{
    if forall|i: int| 0 <= i < n ==> a[i] == b[i] {
        if n < b.len() {
            assert(parts_at(a, b, n));
        } else if n < a.len() {
            assert(parts_at(b, a, n));
        } else {
            assert(a =~= b);
        }
    } else {
        let i = lemma_first_difference(a, b, n);
        if a[i] < b[i] {
            assert(parts_at(a, b, i));
        } else {
            assert(parts_at(b, a, i));
        }
    }
}

/// The first place below `n` where two strings differ.
proof fn lemma_first_difference(a: Seq<char>, b: Seq<char>, n: int) -> (i: int)
    requires
        0 <= n <= a.len(),
        n <= b.len(),
        exists|j: int| 0 <= j < n && a[j] != b[j],
    ensures
        0 <= i < n,
        a[i] != b[i],
        forall|j: int| 0 <= j < i ==> a[j] == b[j],
    decreases n,
{
    if exists|j: int| 0 <= j < n - 1 && a[j] != b[j] {
        lemma_first_difference(a, b, n - 1)
    } else {
        n - 1
    }
}

/// Trimming leaves a string alone that has no white space at either end, and leaves none there.
pub proof fn lemma_trimmed_is_trimmed(s: Seq<char>)
    ensures
        trimmed(trimmed(s)) == trimmed(s),
        trimmed(s).len() > 0 ==> !white_space(trimmed(s).first()) && !white_space(trimmed(s).last()),
        trimmed(s).len() == 0 <==> blank(s),
{
    lemma_trim_front_result(s);
    lemma_trim_back_result(trim_front(s));
}

proof fn lemma_trim_front_result(s: Seq<char>)
    ensures
        trim_front(s).len() > 0 ==> !white_space(trim_front(s).first()),
        trim_front(s).len() == 0 <==> blank(s),
    decreases s.len(),
{
    if s.len() > 0 && white_space(s.first()) {
        let rest = s.drop_first();
        lemma_trim_front_result(rest);
        assert(blank(s) <==> blank(rest)) by {
            if blank(rest) {
                assert forall|i: int| 0 <= i < s.len() implies white_space(#[trigger] s[i]) by {
                    if i > 0 {
                        assert(rest[i - 1] == s[i]);
                    }
                }
            }
        }
    }
}

proof fn lemma_trim_back_result(s: Seq<char>)
    requires
        s.len() > 0 ==> !white_space(s.first()),
    ensures
        trim_back(s).len() > 0 ==> !white_space(trim_back(s).last()),
        trim_back(s).len() > 0 <==> s.len() > 0,
        s.len() > 0 ==> trim_back(s).first() == s.first(),
    decreases s.len(),
{
    if s.len() > 0 && white_space(s.last()) {
        lemma_trim_back_result(s.drop_last());
    }
}

}
