//! Text operations on `str` and `String`, specified over sequences of characters.
use vstd::prelude::*;

verus! {

/// Whether `p` is a prefix of `s`.
pub open spec fn has_prefix(s: Seq<char>, p: Seq<char>) -> bool {
    p.len() <= s.len() && s.take(p.len() as int) == p
}

/// `s` without the characters of `set` that it ends in.
pub open spec fn trimmed_end(s: Seq<char>, set: Seq<char>) -> Seq<char>
    decreases s.len(),
{
    if s.len() > 0 && set.contains(s.last()) {
        trimmed_end(s.drop_last(), set)
    } else {
        s
    }
}

/// A text that is trimmed ends in none of the characters that were trimmed, and what was taken
/// off it are such characters only.
pub proof fn trimmed_ends_otherwise(s: Seq<char>, set: Seq<char>)
    ensures
        trimmed_end(s, set).len() > 0 ==> !set.contains(trimmed_end(s, set).last()),
        has_prefix(s, trimmed_end(s, set)),
        forall|i: int|
            trimmed_end(s, set).len() <= i < s.len() ==> set.contains(#[trigger] s[i]),
    decreases s.len(),
{
    if s.len() > 0 && set.contains(s.last()) {
        trimmed_ends_otherwise(s.drop_last(), set);
        let t = trimmed_end(s, set);
        assert(s.take(t.len() as int) =~= s.drop_last().take(t.len() as int));
        assert forall|i: int| t.len() <= i < s.len() implies set.contains(#[trigger] s[i]) by {
            if i < s.len() - 1 {
                assert(s.drop_last()[i] == s[i]);
            }
        }
    } else {
        assert(s.take(s.len() as int) =~= s);
    }
}

/// The code point of `c`, an ASCII capital letter taken as its small letter.
pub open spec fn folded(c: char) -> u32 {
    if 'A' <= c <= 'Z' {
        (c as u32 + 32) as u32
    } else {
        c as u32
    }
}

/// Equality of texts up to the case of ASCII letters.
pub open spec fn same_ignoring_ascii_case(a: Seq<char>, b: Seq<char>) -> bool {
    a.len() == b.len() && forall|i: int| 0 <= i < a.len() ==> folded(a[i]) == folded(b[i])
}

/// Whether `needle` occurs in `s` at character `i`, up to the case of ASCII letters.
pub open spec fn occurs_at(s: Seq<char>, needle: Seq<char>, i: int) -> bool {
    0 <= i <= s.len() - needle.len() && same_ignoring_ascii_case(
        s.subrange(i, i + needle.len()),
        needle,
    )
}

/// Whether `needle` occurs somewhere in `s`, up to the case of ASCII letters.
pub open spec fn occurs_in(s: Seq<char>, needle: Seq<char>) -> bool {
    exists|i: int| occurs_at(s, needle, i)
}

/// The decimal digit `d`, for `d` below ten.
pub open spec fn digit_char(d: nat) -> char {
    if d == 0 {
        '0'
    } else if d == 1 {
        '1'
    } else if d == 2 {
        '2'
    } else if d == 3 {
        '3'
    } else if d == 4 {
        '4'
    } else if d == 5 {
        '5'
    } else if d == 6 {
        '6'
    } else if d == 7 {
        '7'
    } else if d == 8 {
        '8'
    } else {
        '9'
    }
}

/// `n` in decimal notation, without leading zeros.
pub open spec fn decimal_text(n: nat) -> Seq<char>
    decreases n,
{
    if n < 10 {
        seq![digit_char(n)]
    } else {
        decimal_text(n / 10).push(digit_char(n % 10))
    }
}

/// Different numbers have different decimal notations.
pub proof fn decimals_differ(a: nat, b: nat)
    requires
        decimal_text(a) == decimal_text(b),
    ensures
        a == b,
    decreases a,
{
    decimal_has_digits(a);
    decimal_has_digits(b);
    let (x, y) = (decimal_text(a), decimal_text(b));
    assert(x.last() == digit_char(a % 10));
    assert(y.last() == digit_char(b % 10));
    assert(a % 10 == b % 10);
    if a >= 10 && b >= 10 {
        assert(x.drop_last() =~= decimal_text(a / 10));
        assert(y.drop_last() =~= decimal_text(b / 10));
        decimals_differ(a / 10, b / 10);
    } else if a >= 10 {
        decimal_has_digits(a / 10);
    } else if b >= 10 {
        decimal_has_digits(b / 10);
    }
}

/// A decimal notation has at least one digit.
proof fn decimal_has_digits(n: nat)
    ensures
        decimal_text(n).len() > 0,
{
}

/// The texts in `parts`, one after the other, with `sep` between neighbours.
pub open spec fn joined(parts: Seq<Seq<char>>, sep: Seq<char>) -> Seq<char>
    decreases parts.len(),
{
    if parts.len() == 0 {
        Seq::empty()
    } else if parts.len() == 1 {
        parts[0]
    } else {
        joined(parts.drop_last(), sep) + sep + parts.last()
    }
}

/// The views of a sequence of strings.
pub open spec fn views(s: Seq<String>) -> Seq<Seq<char>> {
    s.map_values(|t: String| t@)
}

/// What the `{:?}` form of a text is: the text in double quotes, with the characters
/// that need it escaped.
pub uninterp spec fn debug_quoted(s: Seq<char>) -> Seq<char>;

/// The `{:?}` form of `s`, as `<str as core::fmt::Debug>::fmt` writes it. Claimed of
/// it: the text is a function of the characters of `s`. Which characters are escaped,
/// and how, is left unsaid.
#[verifier::external_body]
pub(crate) fn quoted(s: &str) -> (r: String)
    ensures
        r@ == debug_quoted(s@),
{
    format!("{:?}", s)
}

/// Puts `c` behind a text, with `String::push`.
#[verifier::external_body]
fn push_char(s: &mut String, c: char)
    ensures
        final(s)@ == old(s)@.push(c),
{
    s.push(c)
}

/// `c` in an environment variable's name: an ASCII small letter as its capital, a hyphen as an
/// underscore.
pub open spec fn variable_char(c: char) -> char {
    if 'a' <= c <= 'z' {
        (c as u32 - 32) as char
    } else if c == '-' {
        '_'
    } else {
        c
    }
}

/// `s` as it stands in the name of an environment variable: in capitals, with underscores for
/// hyphens.
pub fn upper_snake(s: &str) -> (r: String)
    ensures
        r@ == s@.map_values(|c: char| variable_char(c)),
{
    let cs: Vec<char> = to_chars(s);
    let mut out: String = String::new();
    let mut i: usize = 0;
    while i < cs.len()
        invariant
            i <= cs@.len(),
            cs@ == s@,
            out@ == s@.take(i as int).map_values(|c: char| variable_char(c)),
        decreases cs@.len() - i,
    {
        let c: char = cs[i];
        let v: char = if 'a' <= c && c <= 'z' {
            let code: u8 = (c as u32 - 32) as u8;
            code as char
        } else if c == '-' {
            '_'
        } else {
            c
        };
        push_char(&mut out, v);
        proof {
            assert(s@.take(i + 1) =~= s@.take(i as int).push(c));
            assert(out@ =~= s@.take(i + 1).map_values(|c: char| variable_char(c)));
        }
        i += 1;
    }
    assert(s@.take(s@.len() as int) =~= s@);
    out
}

/// The characters of `s`, one per element.
pub fn to_chars(s: &str) -> (r: Vec<char>)
    ensures
        r@ == s@,
{
    let mut out: Vec<char> = Vec::new();
    for c in it: s.chars()
        invariant
            out@ == it.seq().take(it.index()),
            it.seq() == s@,
    {
        proof {
            assert(it.seq().take(it.index() + 1) == it.seq().take(it.index()).push(
                it.seq()[it.index()],
            ));
        }
        out.push(c);
    }
    proof {
        assert(s@.take(s@.len() as int) == s@);
    }
    out
}

/// Whether two texts are equal.
pub fn same_text(a: &str, b: &str) -> (r: bool)
    ensures
        r == (a@ == b@),
{
    let x: &[u8] = a.as_bytes();
    let y: &[u8] = b.as_bytes();
    proof {
        vstd::utf8::encode_utf8_decode_utf8(a@);
        vstd::utf8::encode_utf8_decode_utf8(b@);
    }
    if x.len() != y.len() {
        return false;
    }
    let mut i: usize = 0;
    while i < x.len()
        invariant
            x@.len() == y@.len(),
            i <= x@.len(),
            forall|j: int| 0 <= j < i ==> x@[j] == y@[j],
            x@ == vstd::utf8::encode_utf8(a@),
            y@ == vstd::utf8::encode_utf8(b@),
        decreases x@.len() - i,
    {
        if x[i] != y[i] {
            return false;
        }
        i += 1;
    }
    assert(x@ =~= y@);
    true
}

/// The view of an optional string.
pub open spec fn optional_view(s: Option<String>) -> Option<Seq<char>> {
    match s {
        Some(t) => Some(t@),
        None => None,
    }
}

/// What follows `prefix` in `s`, where `s` starts with it.
pub fn after_prefix<'a>(s: &'a str, prefix: &str) -> (r: Option<&'a str>)
    ensures
        r is Some <==> has_prefix(s@, prefix@),
        r matches Some(t) ==> t@ == s@.skip(prefix@.len() as int) && s@ == prefix@ + t@,
{
    let n: usize = prefix.unicode_len();
    let len: usize = s.unicode_len();
    if len < n {
        return None;
    }
    let head: &str = s.substring_char(0, n);
    proof {
        assert(head@ == s@.take(n as int));
    }
    if same_text(head, prefix) {
        let tail: &str = s.substring_char(n, len);
        proof {
            assert(tail@ == s@.skip(n as int));
            assert(s@ == s@.take(n as int) + s@.skip(n as int));
        }
        Some(tail)
    } else {
        None
    }
}

/// `s` without the characters of `set` that it ends in.
pub fn trim_end_of<'a>(s: &'a str, set: &[char]) -> (r: &'a str)
    ensures
        r@ == trimmed_end(s@, set@),
{
    let cs: Vec<char> = to_chars(s);
    let mut end: usize = cs.len();
    proof {
        assert(s@.take(s@.len() as int) == s@);
    }
    while end > 0 && contains_char(set, cs[end - 1])
        invariant
            end <= cs@.len(),
            cs@ == s@,
            trimmed_end(s@.take(end as int), set@) == trimmed_end(s@, set@),
        decreases end,
    {
        proof {
            assert(s@.take(end as int).drop_last() == s@.take(end - 1));
        }
        end -= 1;
    }
    let r: &str = s.substring_char(0, end);
    proof {
        assert(r@ == s@.take(end as int));
        assert(end > 0 ==> s@.take(end as int).last() == cs@[end - 1]);
    }
    r
}

/// Whether `c` is among `set`.
fn contains_char(set: &[char], c: char) -> (r: bool)
    ensures
        r == set@.contains(c),
{
    let mut i: usize = 0;
    while i < set.len()
        invariant
            i <= set@.len(),
            forall|j: int| 0 <= j < i ==> set@[j] != c,
        decreases set@.len() - i,
    {
        if set[i] == c {
            return true;
        }
        i += 1;
    }
    false
}

/// The code point of `c`, an ASCII capital letter taken as its small letter.
fn fold(c: char) -> (r: u32)
    ensures
        r == folded(c),
{
    let code: u32 = c as u32;
    if 'A' <= c && c <= 'Z' {
        code + 32
    } else {
        code
    }
}

/// Whether the `needle.len()` characters of `s` from `i` on are those of `needle`, up to
/// the case of ASCII letters.
fn occurs_from(s: &Vec<char>, needle: &Vec<char>, i: usize) -> (r: bool)
    requires
        i + needle@.len() <= s@.len(),
    ensures
        r == occurs_at(s@, needle@, i as int),
{
    let ghost window = s@.subrange(i as int, i + needle@.len());
    let n: usize = s.len();
    let mut j: usize = 0;
    while j < needle.len()
        invariant
            j <= needle@.len(),
            i + needle@.len() <= s@.len() == n,
            window == s@.subrange(i as int, i + needle@.len()),
            forall|k: int| 0 <= k < j ==> folded(#[trigger] window[k]) == folded(needle@[k]),
        decreases needle@.len() - j,
    {
        proof {
            assert(window[j as int] == s@[i + j]);
        }
        if fold(s[i + j]) != fold(needle[j]) {
            return false;
        }
        j += 1;
    }
    true
}

/// Whether two texts are equal up to the case of ASCII letters.
pub fn equals_ignoring_ascii_case(a: &str, b: &str) -> (r: bool)
    ensures
        r == same_ignoring_ascii_case(a@, b@),
{
    let x: Vec<char> = to_chars(a);
    let y: Vec<char> = to_chars(b);
    if x.len() != y.len() {
        return false;
    }
    proof {
        assert(x@.subrange(0, y@.len() as int) == x@);
    }
    occurs_from(&x, &y, 0)
}

/// Whether `needle` occurs in `s`, up to the case of ASCII letters.
pub fn contains_ignoring_ascii_case(s: &str, needle: &str) -> (r: bool)
    ensures
        r == occurs_in(s@, needle@),
{
    let x: Vec<char> = to_chars(s);
    let y: Vec<char> = to_chars(needle);
    if x.len() < y.len() {
        return false;
    }
    let last: usize = x.len() - y.len();
    let mut i: usize = 0;
    while i <= last
        invariant
            x@ == s@,
            y@ == needle@,
            last == x@.len() - y@.len(),
            i <= last + 1,
            forall|k: int| 0 <= k < i ==> !occurs_at(s@, needle@, k),
        decreases last + 1 - i,
    {
        if occurs_from(&x, &y, i) {
            return true;
        }
        if i == last {
            return false;
        }
        i += 1;
    }
    false
}

/// The decimal digit `d`.
fn digit(d: u64) -> (r: &'static str)
    requires
        d < 10,
    ensures
        r@ == seq![digit_char(d as nat)],
{
    proof {
        reveal_strlit("0");
        reveal_strlit("1");
        reveal_strlit("2");
        reveal_strlit("3");
        reveal_strlit("4");
        reveal_strlit("5");
        reveal_strlit("6");
        reveal_strlit("7");
        reveal_strlit("8");
        reveal_strlit("9");
    }
    if d == 0 {
        "0"
    } else if d == 1 {
        "1"
    } else if d == 2 {
        "2"
    } else if d == 3 {
        "3"
    } else if d == 4 {
        "4"
    } else if d == 5 {
        "5"
    } else if d == 6 {
        "6"
    } else if d == 7 {
        "7"
    } else if d == 8 {
        "8"
    } else {
        "9"
    }
}

/// `n` in decimal notation, without leading zeros.
pub fn decimal(n: u64) -> (r: String)
    ensures
        r@ == decimal_text(n as nat),
    decreases n,
{
    if n < 10 {
        digit(n).to_string()
    } else {
        let mut head: String = decimal(n / 10);
        head.append(digit(n % 10));
        proof {
            assert(decimal_text((n / 10) as nat) + seq![digit_char((n % 10) as nat)]
                == decimal_text((n / 10) as nat).push(digit_char((n % 10) as nat)));
        }
        head
    }
}

/// The texts in `parts`, one after the other, with `sep` between neighbours.
pub fn join(parts: &Vec<String>, sep: &str) -> (r: String)
    ensures
        r@ == joined(views(parts@), sep@),
{
    let mut out: String = String::new();
    let mut i: usize = 0;
    while i < parts.len()
        invariant
            i <= parts@.len(),
            out@ == joined(views(parts@).take(i as int), sep@),
        decreases parts@.len() - i,
    {
        if i > 0 {
            out.append(sep);
        }
        out.append(parts[i].as_str());
        proof {
            let before = views(parts@).take(i as int);
            let after = views(parts@).take(i + 1);
            assert(after.drop_last() == before);
            assert(after.last() == parts@[i as int]@);
            if i == 0 {
                assert(out@ == parts@[0]@);
            }
        }
        i += 1;
    }
    proof {
        assert(views(parts@).take(parts@.len() as int) == views(parts@));
    }
    out
}

/// Two texts, one after the other.
pub fn glue(a: &str, b: &str) -> (r: String)
    ensures
        r@ == a@ + b@,
{
    let mut s: String = a.to_string();
    s.append(b);
    s
}

/// A text starts with every text to which something was added behind it, and whatever it starts
/// with, it is that text and something behind it.
pub proof fn prefixes_are_what_stands_in_front(s: Seq<char>, p: Seq<char>, t: Seq<char>)
    ensures
        has_prefix(p + t, p),
        has_prefix(s, p) <==> exists|rest: Seq<char>| s == p + rest,
{
    assert((p + t).take(p.len() as int) =~= p);
    if has_prefix(s, p) {
        assert(s =~= p + s.skip(p.len() as int));
    }
    if exists|rest: Seq<char>| s == p + rest {
        let rest = choose|rest: Seq<char>| s == p + rest;
        assert(s.take(p.len() as int) =~= p);
    }
}

/// Texts are equal up to case just where they differ, if at all, in ASCII letters of which one
/// is the capital and the other the small one.
pub proof fn only_the_case_of_letters_is_ignored(a: Seq<char>, b: Seq<char>)
    ensures
        same_ignoring_ascii_case(a, b) <==> a.len() == b.len() && forall|i: int|
            0 <= i < a.len() ==> (#[trigger] a[i]) == b[i] || ('A' <= a[i] <= 'Z' && b[i] as int
                == a[i] as int + 32) || ('A' <= b[i] <= 'Z' && a[i] as int == b[i] as int + 32),
{
    if same_ignoring_ascii_case(a, b) {
        assert forall|i: int| 0 <= i < a.len() implies (#[trigger] a[i]) == b[i] || ('A' <= a[i]
            <= 'Z' && b[i] as int == a[i] as int + 32) || ('A' <= b[i] <= 'Z' && a[i] as int
            == b[i] as int + 32) by {
            assert(folded(a[i]) == folded(b[i]));
            folded_alike(a[i], b[i]);
        }
    }
}

/// Characters that fold alike are the same, or a capital and its small letter.
proof fn folded_alike(c: char, d: char)
    requires
        folded(c) == folded(d),
    ensures
        c == d || ('A' <= c <= 'Z' && d as int == c as int + 32) || ('A' <= d <= 'Z' && c as int
            == d as int + 32),
{
    let (x, y) = (c as u32, d as u32);
    assert(x == c as int && y == d as int);
}

/// A text occurs wherever it stands, in whatever case, between other texts, and occurs only
/// where it stands so.
pub proof fn texts_occur_where_they_stand(
    s: Seq<char>,
    front: Seq<char>,
    found: Seq<char>,
    back: Seq<char>,
    needle: Seq<char>,
)
    ensures
        same_ignoring_ascii_case(found, needle) ==> occurs_in(front + found + back, needle),
        occurs_in(s, needle) ==> exists|i: int|
            0 <= i <= s.len() - needle.len() && same_ignoring_ascii_case(
                #[trigger] s.subrange(i, i + needle.len()),
                needle,
            ),
{
    if same_ignoring_ascii_case(found, needle) {
        let whole = front + found + back;
        let i = front.len() as int;
        assert(whole.subrange(i, i + needle.len()) =~= found);
        assert(occurs_at(whole, needle, i));
    }
    if occurs_in(s, needle) {
        let i = choose|i: int| occurs_at(s, needle, i);
        assert(same_ignoring_ascii_case(s.subrange(i, i + needle.len()), needle));
    }
}

/// A number below ten is written as its digit, and a longer one as what stands in front of its
/// last digit and that digit.
pub proof fn numbers_are_written_digit_by_digit(n: nat, d: nat)
    requires
        d < 10,
    ensures
        decimal_text(d) == seq!["0123456789"@[d as int]],
        n > 0 ==> decimal_text(10 * n + d) == decimal_text(n).push("0123456789"@[d as int]),
{
    reveal_strlit("0123456789");
    assert(digit_char(d) == "0123456789"@[d as int]);
    if n > 0 {
        assert((10 * n + d) / 10 == n);
        assert((10 * n + d) % 10 == d);
    }
}

/// One text is joined to itself, and every further one stands behind the separator.
pub proof fn separators_stand_between_texts(
    parts: Seq<Seq<char>>,
    part: Seq<char>,
    sep: Seq<char>,
)
    ensures
        joined(Seq::<Seq<char>>::empty(), sep) == Seq::<char>::empty(),
        joined(seq![part], sep) == part,
        parts.len() > 0 ==> joined(parts.push(part), sep) == joined(parts, sep) + sep + part,
{
    assert(parts.push(part).drop_last() =~= parts);
}

/// The name of an environment variable has a character for each of the text, in its place: the
/// capital for a small letter, an underscore for a hyphen, and any other as it is.
pub proof fn variables_are_spelled_character_by_character(s: &str, r: String, i: int)
    requires
        call_ensures(upper_snake, (s,), r),
        0 <= i < s@.len(),
    ensures
        r@.len() == s@.len(),
        'a' <= s@[i] <= 'z' ==> r@[i] as int == s@[i] as int - 32,
        s@[i] == '-' ==> r@[i] == '_',
        !('a' <= s@[i] <= 'z') && s@[i] != '-' ==> r@[i] == s@[i],
{
}

/// Texts are compared character by character, with the case of letters and, where it is to be
/// ignored, without.
pub proof fn texts_are_compared_character_by_character(
    a: &str,
    b: &str,
    same: bool,
    same_but_for_case: bool,
    chars: Vec<char>,
)
    requires
        call_ensures(same_text, (a, b), same),
        call_ensures(equals_ignoring_ascii_case, (a, b), same_but_for_case),
        call_ensures(to_chars, (a,), chars),
    ensures
        chars@ == a@,
        same <==> a@ == b@,
        same_but_for_case <==> a@.len() == b@.len() && forall|i: int|
            0 <= i < a@.len() ==> (#[trigger] a@[i]) == b@[i] || ('A' <= a@[i] <= 'Z' && b@[i]
                as int == a@[i] as int + 32) || ('A' <= b@[i] <= 'Z' && a@[i] as int == b@[i]
                as int + 32),
{
    only_the_case_of_letters_is_ignored(a@, b@);
}

/// What stands behind a prefix is found just where the text is the prefix and something behind it,
/// and is that something.
pub proof fn what_stands_behind_a_prefix_is_found<'a>(
    s: &'a str,
    prefix: &str,
    r: Option<&'a str>,
    rest: Seq<char>,
)
    requires
        call_ensures(after_prefix, (s, prefix), r),
    ensures
        s@ == prefix@ + rest ==> r is Some && r->0@ == rest,
        r is Some ==> s@ == prefix@ + r->0@,
{
    if s@ == prefix@ + rest {
        prefixes_are_what_stands_in_front(s@, prefix@, rest);
        assert(s@.skip(prefix@.len() as int) =~= rest);
    }
}

/// A text is trimmed of the given characters that it ends in, of all of them, and of nothing else.
pub proof fn texts_are_trimmed_at_their_ends<'a>(s: &'a str, set: &[char], r: &'a str, i: int)
    requires
        call_ensures(trim_end_of, (s, set), r),
    ensures
        r@.len() <= s@.len(),
        0 <= i < r@.len() ==> r@[i] == s@[i],
        r@.len() <= i < s@.len() ==> set@.contains(s@[i]),
        r@.len() > 0 ==> !set@.contains(r@[r@.len() - 1]),
{
    trimmed_ends_otherwise(s@, set@);
    if 0 <= i < r@.len() {
        assert(s@.take(r@.len() as int)[i] == s@[i]);
    }
}

/// A text is found in another just where it stands there, between other texts, in whatever case.
pub proof fn texts_are_found_where_they_stand(
    s: &str,
    needle: &str,
    r: bool,
    front: Seq<char>,
    found: Seq<char>,
    back: Seq<char>,
)
    requires
        call_ensures(contains_ignoring_ascii_case, (s, needle), r),
    ensures
        s@ == front + found + back && same_ignoring_ascii_case(found, needle@) ==> r,
        r ==> exists|i: int|
            0 <= i <= s@.len() - needle@.len() && same_ignoring_ascii_case(
                #[trigger] s@.subrange(i, i + needle@.len()),
                needle@,
            ),
{
    texts_occur_where_they_stand(s@, front, found, back, needle@);
}

/// A number is written with the ten digits: one below ten as its digit, and a longer one as what
/// stands in front of its last digit and that digit.
pub proof fn written_numbers_end_in_their_last_digit(n: u64, r: String, tenth: u64, front: String)
    requires
        call_ensures(decimal, (n,), r),
        call_ensures(decimal, (tenth,), front),
        tenth == n / 10,
    ensures
        n < 10 ==> r@ == seq!["0123456789"@[n as int]],
        n >= 10 ==> r@ == front@.push("0123456789"@[n as int % 10]),
{
    if n < 10 {
        numbers_are_written_digit_by_digit(0, n as nat);
    } else {
        let d = (n % 10) as nat;
        numbers_are_written_digit_by_digit(tenth as nat, d);
        assert(n == 10 * tenth + d);
    }
}

/// Texts are joined by putting the separator between neighbours and nothing round them; two texts
/// are glued without one.
pub proof fn texts_are_joined_in_order(
    parts: Vec<String>,
    sep: &str,
    r: String,
    shorter: Vec<String>,
    head: String,
    a: &str,
    b: &str,
    glued: String,
)
    requires
        call_ensures(join, (&parts, sep), r),
        call_ensures(join, (&shorter, sep), head),
        call_ensures(glue, (a, b), glued),
    ensures
        parts@.len() == 0 ==> r@.len() == 0,
        parts@.len() == 1 ==> r@ == parts@[0]@,
        parts@.len() > 1 && shorter@ == parts@.drop_last() ==> r@ == head@ + sep@
            + parts@.last()@,
        glued@ == a@ + b@,
{
    let all = views(parts@);
    if parts@.len() > 1 {
        assert(all.drop_last() =~= views(parts@.drop_last()));
    }
}

/// The views of some strings are those of each, in their order.
pub proof fn strings_are_viewed_one_by_one(s: Seq<String>, t: Option<String>, i: int)
    ensures
        views(s).len() == s.len(),
        0 <= i < s.len() ==> views(s)[i] == s[i]@,
        optional_view(t) is Some <==> t is Some,
        t is Some ==> optional_view(t)->0 == t->0@,
{
}

} // verus!
