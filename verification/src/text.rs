//! Text as sequences of characters: trimming, splitting into lines, searching, decimal numbers.
use vstd::prelude::*;
use vstd::string::*;
use vstd::utf8::*;

verus! {

broadcast use vstd::string::group_string_axioms;

/// Whether the standard library counts a character outside ASCII as a letter or a number.
pub uninterp spec fn char_alphanumeric(c: char) -> bool;

/// The lower-case form that the standard library gives to a text that is not all ASCII.
pub uninterp spec fn str_lowercase(s: Seq<char>) -> Seq<char>;

/// The text that the standard library reads out of bytes that are no UTF-8.
pub uninterp spec fn utf8_lossy(bytes: Seq<u8>) -> Seq<char>;

/// The white space among the ASCII characters: tab, line feed, vertical tab, form feed, carriage
/// return and the blank.
pub open spec fn ascii_whitespace(c: char) -> bool {
    '\t' <= c <= '\r' || c == ' '
}

/// The letters and digits among the ASCII characters.
pub open spec fn ascii_alphanumeric(c: char) -> bool {
    'a' <= c <= 'z' || 'A' <= c <= 'Z' || '0' <= c <= '9'
}

/// The lower-case form of an ASCII character.
pub open spec fn ascii_lowercase(c: char) -> char {
    if 'A' <= c <= 'Z' {
        (c as u32 + 32) as char
    } else {
        c
    }
}

/// White space in the sense of Unicode: the characters with the property White_Space.
pub open spec fn is_space(c: char) -> bool {
    ||| ascii_whitespace(c)
    ||| c as u32 == 0x85
    ||| c as u32 == 0xa0
    ||| c as u32 == 0x1680
    ||| 0x2000 <= c as u32 <= 0x200a
    ||| c as u32 == 0x2028
    ||| c as u32 == 0x2029
    ||| c as u32 == 0x202f
    ||| c as u32 == 0x205f
    ||| c as u32 == 0x3000
}

/// A letter or a number in the sense of Unicode.
pub open spec fn is_alphanumeric(c: char) -> bool {
    if c as u32 <= 0x7f {
        ascii_alphanumeric(c)
    } else {
        char_alphanumeric(c)
    }
}

/// The lower-case form of a text.
pub open spec fn lowercase(s: Seq<char>) -> Seq<char> {
    if is_ascii_chars(s) {
        s.map_values(|c: char| ascii_lowercase(c))
    } else {
        str_lowercase(s)
    }
}

/// The text that a program's output stands for.
pub open spec fn lossy_text(bytes: Seq<u8>) -> Seq<char> {
    if valid_utf8(bytes) {
        decode_utf8(bytes)
    } else {
        utf8_lossy(bytes)
    }
}

/// `char::is_whitespace` holds of exactly the characters that have Unicode's property White_Space.
pub assume_specification[ char::is_whitespace ](c: char) -> (r: bool)
    ensures
        r == is_space(c),
;

/// `char::is_alphanumeric` depends on the character alone. On ASCII characters it holds of the
/// letters and the decimal digits, the only ones there that Unicode calls alphabetic or numeric.
pub assume_specification[ char::is_alphanumeric ](c: char) -> (r: bool)
    ensures
        c as u32 <= 0x7f ==> r == ascii_alphanumeric(c),
        c as u32 > 0x7f ==> r == char_alphanumeric(c),
;

/// `str::to_lowercase` depends on the text alone. On a text of ASCII characters it maps each
/// capital letter to its small letter and keeps every other character.
pub assume_specification[ str::to_lowercase ](s: &str) -> (r: String)
    ensures
        is_ascii_chars(s@) ==> r@ == s@.map_values(|c: char| ascii_lowercase(c)),
        !is_ascii_chars(s@) ==> r@ == str_lowercase(s@),
;

/// `String::from_utf8_lossy` depends on the bytes alone. Bytes that are UTF-8 come out as the
/// text that they encode.
#[verifier::external_body]
pub(crate) fn from_utf8_lossy(bytes: &[u8]) -> (r: String)
    ensures
        valid_utf8(bytes@) ==> r@ == decode_utf8(bytes@),
        !valid_utf8(bytes@) ==> r@ == utf8_lossy(bytes@),
{
    String::from_utf8_lossy(bytes).into_owned()
}

/// `s` without the white space that it begins with.
pub open spec fn trim_start(s: Seq<char>) -> Seq<char>
    decreases s.len(),
{
    if s.len() > 0 && is_space(s.first()) {
        trim_start(s.drop_first())
    } else {
        s
    }
}

/// `s` without the white space that it ends with.
pub open spec fn trim_end(s: Seq<char>) -> Seq<char>
    decreases s.len(),
{
    if s.len() > 0 && is_space(s.last()) {
        trim_end(s.drop_last())
    } else {
        s
    }
}

/// `s` without white space at either end.
pub open spec fn trimmed(s: Seq<char>) -> Seq<char> {
    trim_end(trim_start(s))
}

/// Where the first line of `s` ends: at its first line feed, or at the end of the text.
pub open spec fn line_end(s: Seq<char>) -> int
    decreases s.len(),
{
    if s.len() == 0 || s.first() == '\n' {
        0
    } else {
        1 + line_end(s.drop_first())
    }
}

/// A line that ended in a line feed, without the carriage return that may precede it.
pub open spec fn without_return(s: Seq<char>) -> Seq<char> {
    if s.len() > 0 && s.last() == '\r' {
        s.drop_last()
    } else {
        s
    }
}

/// The lines of a text, each without its ending. A line feed at the very end starts no new line.
pub open spec fn lines_of(s: Seq<char>) -> Seq<Seq<char>>
    decreases s.len(),
{
    let end = line_end(s);
    if s.len() == 0 {
        Seq::empty()
    } else if 0 <= end < s.len() {
        seq![without_return(s.take(end))] + lines_of(s.skip(end + 1))
    } else {
        seq![s]
    }
}

/// The lines of a text, trimmed, without the empty ones.
pub open spec fn filled_lines(s: Seq<char>) -> Seq<Seq<char>> {
    lines_of(s).map_values(|line: Seq<char>| trimmed(line)).filter(|line: Seq<char>| line.len() > 0)
}

/// `needle` stands in `hay` from position `at` on.
pub open spec fn occurs_at(hay: Seq<char>, needle: Seq<char>, at: int) -> bool {
    0 <= at && at + needle.len() <= hay.len() && hay.subrange(at, at + needle.len()) == needle
}

/// `needle` stands somewhere in `hay`.
pub open spec fn occurs(hay: Seq<char>, needle: Seq<char>) -> bool {
    exists|at: int| occurs_at(hay, needle, at)
}

/// The character for a number below ten.
pub open spec fn digit(n: nat) -> char {
    (48 + n) as char
}

/// A number in decimal notation.
pub open spec fn decimal(n: nat) -> Seq<char>
    decreases n,
{
    if n < 10 {
        seq![digit(n)]
    } else {
        decimal(n / 10).push(digit(n % 10))
    }
}

/// The number that decimal notation stands for.
pub open spec fn decimal_value(s: Seq<char>) -> int
    decreases s.len(),
{
    if s.len() == 0 {
        0
    } else {
        10 * decimal_value(s.drop_last()) + (s.last() as int - 48)
    }
}

/// The words one after another, with `sep` between two neighbours.
pub open spec fn joined(words: Seq<Seq<char>>, sep: Seq<char>) -> Seq<char>
    decreases words.len(),
{
    if words.len() == 0 {
        Seq::empty()
    } else if words.len() == 1 {
        words[0]
    } else {
        joined(words.drop_last(), sep) + sep + words.last()
    }
}

/// The text inside, where there is one.
pub open spec fn text_in(s: Option<String>) -> Option<Seq<char>> {
    match s {
        Some(name) => Some(name@),
        None => None,
    }
}

/// The characters of `s`, one by one.
pub fn chars_of(s: &str) -> (r: Vec<char>)
    ensures
        r@ == s@,
{
    let mut r: Vec<char> = Vec::new();
    for c in it: s.chars()
        invariant
            r@ == it.seq().take(it.index() as int),
            it.seq() == s@,
    {
        r.push(c);
    }
    r
}

/// Whether two texts are the same.
pub fn same_text(a: &str, b: &str) -> (r: bool)
    ensures
        r == (a@ == b@),
{
    a.to_owned() == b.to_owned()
}

/// `s` without white space at either end.
pub fn trim(s: &str) -> (r: String)
    ensures
        r@ == trimmed(s@),
{
    let cs = chars_of(s);
    let n: usize = cs.len();
    let mut from: usize = 0;
    assert(s@.skip(0) == s@);
    while from < n && cs[from].is_whitespace()
        invariant
            from <= n,
            n == s@.len(),
            cs@ == s@,
            trim_start(s@) == trim_start(s@.skip(from as int)),
        decreases n - from,
    {
        assert(s@.skip(from as int).drop_first() == s@.skip(from + 1));
        from += 1;
    }
    let ghost rest = s@.skip(from as int);
    assert(trim_start(s@) == rest) by {
        assert(rest.len() > 0 ==> rest.first() == cs@[from as int]);
    }
    let mut to: usize = n;
    assert(s@.subrange(from as int, to as int) == rest);
    while to > from && cs[to - 1].is_whitespace()
        invariant
            from <= to <= n,
            n == s@.len(),
            cs@ == s@,
            trim_end(rest) == trim_end(s@.subrange(from as int, to as int)),
        decreases to,
    {
        assert(s@.subrange(from as int, to as int).drop_last() == s@.subrange(
            from as int,
            to - 1,
        ));
        to -= 1;
    }
    assert(trim_end(rest) == s@.subrange(from as int, to as int)) by {
        let kept = s@.subrange(from as int, to as int);
        assert(kept.len() > 0 ==> kept.last() == cs@[to - 1]);
    }
    s.substring_char(from, to).to_owned()
}

proof fn lemma_trim_start(s: Seq<char>)
    ensures
        trim_start(s).len() > 0 ==> !is_space(trim_start(s).first()),
    decreases s.len(),
{
    if s.len() > 0 && is_space(s.first()) {
        lemma_trim_start(s.drop_first());
    }
}

proof fn lemma_trim_end(s: Seq<char>)
    ensures
        trim_end(s).len() > 0 ==> !is_space(trim_end(s).last()) && trim_end(s).first() == s.first(),
    decreases s.len(),
{
    if s.len() > 0 && is_space(s.last()) {
        lemma_trim_end(s.drop_last());
    }
}

/// A trimmed text neither begins nor ends with white space, so there is nothing left to trim.
pub proof fn trimming_once_is_enough(s: Seq<char>)
    ensures
        trimmed(s).len() > 0 ==> !is_space(trimmed(s).first()) && !is_space(trimmed(s).last()),
        trimmed(trimmed(s)) == trimmed(s),
{
    lemma_trim_start(s);
    lemma_trim_end(trim_start(s));
}

proof fn lemma_line_end(s: Seq<char>, at: int)
    requires
        0 <= at <= s.len(),
        forall|k: int| 0 <= k < at ==> s[k] != '\n',
        at < s.len() ==> s[at] == '\n',
    ensures
        line_end(s) == at,
    decreases s.len(),
{
    if at > 0 {
        assert forall|k: int| 0 <= k < at - 1 implies s.drop_first()[k] != '\n' by {
            assert(s.drop_first()[k] == s[k + 1]);
        }
        lemma_line_end(s.drop_first(), at - 1);
    }
}

/// The lines of a text, each without its ending.
pub fn lines(s: &str) -> (r: Vec<String>)
    ensures
        r.deep_view() == lines_of(s@),
{
    let cs = chars_of(s);
    let n: usize = cs.len();
    let mut r: Vec<String> = Vec::new();
    let mut start: usize = 0;
    let mut i: usize = 0;
    assert(s@.skip(0) == s@);
    assert(r.deep_view() + lines_of(s@) == lines_of(s@));
    while i < n
        invariant
            start <= i <= n,
            n == s@.len(),
            cs@ == s@,
            forall|k: int| start <= k < i ==> s@[k] != '\n',
            r.deep_view() + lines_of(s@.skip(start as int)) == lines_of(s@),
        decreases n - i,
    {
        if cs[i] == '\n' {
            let ghost rest = s@.skip(start as int);
            let ghost before = r.deep_view();
            let end: usize = if i > start && cs[i - 1] == '\r' {
                i - 1
            } else {
                i
            };
            let line = s.substring_char(start, end).to_owned();
            proof {
                lemma_line_end(rest, i - start);
                assert(rest.take(i - start) == s@.subrange(start as int, i as int));
                assert(line@ == without_return(rest.take(i - start))) by {
                    if end < i {
                        assert(rest.take(i - start).drop_last() == line@);
                    }
                }
                assert(rest.skip(i - start + 1) == s@.skip(i + 1));
            }
            r.push(line);
            proof {
                assert(r.deep_view() == before.push(line@));
                assert(before.push(line@) + lines_of(s@.skip(i + 1)) == before + (seq![line@]
                    + lines_of(s@.skip(i + 1))));
            }
            start = i + 1;
        }
        i += 1;
    }
    let ghost rest = s@.skip(start as int);
    let ghost before = r.deep_view();
    proof {
        lemma_line_end(rest, n - start);
    }
    if start < n {
        let line = s.substring_char(start, n).to_owned();
        assert(line@ == rest);
        r.push(line);
        assert(r.deep_view() == before.push(rest));
        assert(before.push(rest) == before + seq![rest]);
    } else {
        assert(before + Seq::<Seq<char>>::empty() == before);
    }
    r
}

/// The lines of a text, trimmed, without the empty ones.
pub fn nonblank_lines(s: &str) -> (r: Vec<String>)
    ensures
        r.deep_view() == filled_lines(s@),
{
    let all = lines(s);
    let ghost all_trimmed = lines_of(s@).map_values(|line: Seq<char>| trimmed(line));
    let ghost filled = |line: Seq<char>| line.len() > 0;
    let mut r: Vec<String> = Vec::new();
    reveal(Seq::filter);
    assert(r.deep_view() == all_trimmed.take(0).filter(filled));
    for i in 0..all.len()
        invariant
            all.deep_view() == lines_of(s@),
            all_trimmed == lines_of(s@).map_values(|line: Seq<char>| trimmed(line)),
            filled == (|line: Seq<char>| line.len() > 0),
            r.deep_view() == all_trimmed.take(i as int).filter(filled),
    {
        let line = trim(all[i].as_str());
        let ghost before = r.deep_view();
        proof {
            assert(all.deep_view()[i as int] == all@[i as int]@);
            assert(all_trimmed.take(i + 1) == all_trimmed.take(i as int).push(line@));
            all_trimmed.take(i as int).lemma_filter_push(line@, filled);
        }
        if !line.as_str().is_empty() {
            r.push(line);
            assert(r.deep_view() == before.push(line@));
        }
    }
    assert(all_trimmed.take(all.len() as int) == all_trimmed);
    r
}

/// Whether `needle` stands in `hay` from position `at` on.
fn stands_at(hay: &Vec<char>, needle: &Vec<char>, at: usize) -> (r: bool)
    requires
        at <= hay.len(),
    ensures
        r == occurs_at(hay@, needle@, at as int),
{
    if needle.len() > hay.len() - at {
        return false;
    }
    for k in 0..needle.len()
        invariant
            at + needle.len() <= hay.len(),
            forall|j: int| 0 <= j < k ==> hay@[at + j] == needle@[j],
    {
        if hay[at + k] != needle[k] {
            proof {
                let part = hay@.subrange(at as int, at + needle@.len());
                assert(part[k as int] == hay@[at + k]);
            }
            return false;
        }
    }
    assert(hay@.subrange(at as int, at + needle@.len()) == needle@);
    true
}

/// Whether `needle` stands somewhere in `hay`.
pub fn contains(hay: &str, needle: &str) -> (r: bool)
    ensures
        r == occurs(hay@, needle@),
{
    let h = chars_of(hay);
    let n = chars_of(needle);
    let mut at: usize = 0;
    while at < h.len()
        invariant
            at <= h.len(),
            h@ == hay@,
            n@ == needle@,
            forall|k: int| 0 <= k < at ==> !occurs_at(hay@, needle@, k),
        decreases h.len() - at,
    {
        if stands_at(&h, &n, at) {
            return true;
        }
        at += 1;
    }
    stands_at(&h, &n, at)
}

/// Whether `s` begins with `prefix`.
pub fn starts_with(s: &str, prefix: &str) -> (r: bool)
    ensures
        r == prefix@.is_prefix_of(s@),
{
    let h = chars_of(s);
    let n = chars_of(prefix);
    let r = stands_at(&h, &n, 0);
    assert(n.len() <= h.len() ==> h@.subrange(0, n@.len() as int) == h@.take(n@.len() as int));
    r
}

/// The text of one decimal digit.
fn digit_text(n: u64) -> (r: &'static str)
    requires
        n < 10,
    ensures
        r@ == seq![digit(n as nat)],
{
    proof {
        reveal_strlit("0");
        reveal_strlit("1");
        reveal_strlit("2");
        reveal_strlit("3");
        reveal_strlit("4");
        reveal_strlit("5");
        reveal_strlit("6");
        reveal_strlit("7");
        reveal_strlit("8");
        reveal_strlit("9");
    }
    match n {
        0 => "0",
        1 => "1",
        2 => "2",
        3 => "3",
        4 => "4",
        5 => "5",
        6 => "6",
        7 => "7",
        8 => "8",
        _ => "9",
    }
}

/// `n` in decimal notation.
pub fn decimal_text(n: u64) -> (r: String)
    ensures
        r@ == decimal(n as nat),
    decreases n,
{
    if n < 10 {
        digit_text(n).to_owned()
    } else {
        let head = decimal_text(n / 10);
        let r = head.concat(digit_text(n % 10));
        assert(r@ == head@.push(digit((n % 10) as nat)));
        r
    }
}

/// Decimal notation gives the number back that it was made from.
pub proof fn decimal_reads_back(n: nat)
    ensures
        decimal_value(decimal(n)) == n,
    decreases n,
{
    if n < 10 {
        assert(decimal(n).drop_last() == Seq::<char>::empty());
        assert(decimal_value(Seq::<char>::empty()) == 0);
    } else {
        decimal_reads_back(n / 10);
        assert(decimal(n).drop_last() == decimal(n / 10));
    }
}

/// The words one after another, with `sep` between two neighbours.
pub fn join(words: &Vec<String>, sep: &str) -> (r: String)
    ensures
        r@ == joined(words.deep_view(), sep@),
{
    let ghost all = words.deep_view();
    let mut r = String::new();
    for i in 0..words.len()
        invariant
            all == words.deep_view(),
            r@ == joined(all.take(i as int), sep@),
    {
        proof {
            assert(all[i as int] == words@[i as int]@);
            assert(all.take(i + 1).drop_last() == all.take(i as int));
        }
        if i > 0 {
            r.append(sep);
        }
        r.append(words[i].as_str());
    }
    assert(all.take(words.len() as int) == all);
    r
}

/// `a` followed by `b`.
pub fn concat2(a: &str, b: &str) -> (r: String)
    ensures
        r@ == a@ + b@,
{
    a.to_owned().concat(b)
}

/// `a` followed by `b` and `c`.
pub fn concat3(a: &str, b: &str, c: &str) -> (r: String)
    ensures
        r@ == a@ + b@ + c@,
{
    a.to_owned().concat(b).concat(c)
}

/// Trimming takes away nothing but white space, and only at the two ends: the text is what was cut
/// off in front, what is left, and what was cut off behind.
pub proof fn trimming_removes_only_white_space(s: Seq<char>) -> (ends: (Seq<char>, Seq<char>))
    ensures
        s == ends.0 + trimmed(s) + ends.1,
        forall|i: int| 0 <= i < ends.0.len() ==> is_space(#[trigger] ends.0[i]),
        forall|i: int| 0 <= i < ends.1.len() ==> is_space(#[trigger] ends.1[i]),
        trimmed(s).len() > 0 ==> !is_space(trimmed(s).first()) && !is_space(trimmed(s).last()),
{
    let front = lemma_cut_in_front(s);
    let rest = trim_start(s);
    let back = lemma_cut_behind(rest);
    trimming_once_is_enough(s);
    assert(s == front + trimmed(s) + back);
    (front, back)
}

proof fn lemma_cut_in_front(s: Seq<char>) -> (front: Seq<char>)
    ensures
        s == front + trim_start(s),
        forall|i: int| 0 <= i < front.len() ==> is_space(#[trigger] front[i]),
    decreases s.len(),
{
    if s.len() > 0 && is_space(s.first()) {
        let more = lemma_cut_in_front(s.drop_first());
        let front = seq![s.first()] + more;
        assert(s == seq![s.first()] + s.drop_first());
        assert(s == front + trim_start(s));
        front
    } else {
        assert(s == Seq::<char>::empty() + s);
        Seq::empty()
    }
}

proof fn lemma_cut_behind(s: Seq<char>) -> (back: Seq<char>)
    ensures
        s == trim_end(s) + back,
        forall|i: int| 0 <= i < back.len() ==> is_space(#[trigger] back[i]),
    decreases s.len(),
{
    if s.len() > 0 && is_space(s.last()) {
        let more = lemma_cut_behind(s.drop_last());
        let back = more.push(s.last());
        assert(s == s.drop_last().push(s.last()));
        assert(s == trim_end(s) + back);
        back
    } else {
        assert(s == s + Seq::<char>::empty());
        Seq::empty()
    }
}

/// Two texts whose kept part is the same but for white space at the ends trim to the same.
pub proof fn trimming_finds_the_kept_part(front: Seq<char>, kept: Seq<char>, back: Seq<char>)
    requires
        forall|i: int| 0 <= i < front.len() ==> is_space(#[trigger] front[i]),
        forall|i: int| 0 <= i < back.len() ==> is_space(#[trigger] back[i]),
        kept.len() > 0 ==> !is_space(kept.first()) && !is_space(kept.last()),
    ensures
        trimmed(front + kept + back) == kept,
    decreases front.len() + back.len(),
{
    let s = front + kept + back;
    if front.len() > 0 {
        assert(s.first() == front[0]);
        assert(s.drop_first() == front.drop_first() + kept + back);
        assert forall|i: int| 0 <= i < front.drop_first().len() implies is_space(
            #[trigger] front.drop_first()[i],
        ) by {
            assert(front.drop_first()[i] == front[i + 1]);
        }
        trimming_finds_the_kept_part(front.drop_first(), kept, back);
    } else if kept.len() > 0 {
        assert(s == kept + back);
        assert(s.first() == kept.first());
        lemma_end_trims(kept, back);
    } else {
        assert(s == back);
        if back.len() > 0 {
            assert(is_space(back[0]));
            assert forall|i: int| 0 <= i < back.drop_first().len() implies is_space(
                #[trigger] back.drop_first()[i],
            ) by {
                assert(back.drop_first()[i] == back[i + 1]);
            }
            assert(front + kept + back.drop_first() == back.drop_first());
            trimming_finds_the_kept_part(front, kept, back.drop_first());
        }
    }
}

proof fn lemma_end_trims(kept: Seq<char>, back: Seq<char>)
    requires
        kept.len() > 0,
        !is_space(kept.last()),
        forall|i: int| 0 <= i < back.len() ==> is_space(#[trigger] back[i]),
    ensures
        trim_end(kept + back) == kept,
    decreases back.len(),
{
    let s = kept + back;
    if back.len() > 0 {
        assert(s.last() == back[back.len() - 1]);
        assert(s.drop_last() == kept + back.drop_last());
        lemma_end_trims(kept, back.drop_last());
    } else {
        assert(s == kept);
    }
}

/// A line ends at its first line feed, and a carriage return in front of that belongs to the ending.
/// What follows is split in the same way, and an ending at the very end starts no new line.
pub proof fn lines_end_at_line_feeds(line: Seq<char>, rest: Seq<char>)
    requires
        !line.contains('\n'),
    ensures
        line.len() > 0 && line.last() == '\r' ==> lines_of(line + seq!['\n'] + rest) == seq![
            line.drop_last(),
        ] + lines_of(rest),
        line.len() == 0 || line.last() != '\r' ==> lines_of(line + seq!['\n'] + rest) == seq![line]
            + lines_of(rest),
        line.len() > 0 ==> lines_of(line) == seq![line],
        lines_of(Seq::empty()) == Seq::<Seq<char>>::empty(),
{
    let s = line + seq!['\n'] + rest;
    let n = line.len() as int;
    assert forall|k: int| 0 <= k < n implies s[k] != '\n' && line[k] != '\n' by {
        assert(line.contains(line[k]));
    }
    assert(s[n] == '\n');
    lemma_line_end(s, n);
    assert(s.take(n) == line);
    assert(s.skip(n + 1) == rest);
    lemma_line_end(line, n);
}

proof fn lemma_return_is_trimmed(line: Seq<char>)
    requires
        line.len() > 0,
        is_space(line.last()),
    ensures
        trimmed(line.drop_last()) == trimmed(line),
{
    let (front, back) = trimming_removes_only_white_space(line.drop_last());
    let kept = trimmed(line.drop_last());
    assert(line == line.drop_last().push(line.last()));
    assert(line == front + kept + back.push(line.last()));
    trimming_finds_the_kept_part(front, kept, back.push(line.last()));
}

/// Every line that holds more than white space is kept, trimmed and in its place, and no other.
pub proof fn every_filled_line_is_kept(line: Seq<char>, rest: Seq<char>)
    requires
        !line.contains('\n'),
    ensures
        trimmed(line).len() > 0 ==> filled_lines(line + seq!['\n'] + rest) == seq![trimmed(line)]
            + filled_lines(rest),
        trimmed(line).len() == 0 ==> filled_lines(line + seq!['\n'] + rest) == filled_lines(rest),
        trimmed(line).len() > 0 ==> filled_lines(line) == seq![trimmed(line)],
        trimmed(line).len() == 0 ==> filled_lines(line) == Seq::<Seq<char>>::empty(),
{
    let s = line + seq!['\n'] + rest;
    let none = Seq::<Seq<char>>::empty();
    let as_trimmed = |l: Seq<char>| trimmed(l);
    let filled = |l: Seq<char>| l.len() > 0;
    lines_end_at_line_feeds(line, rest);
    let first = if line.len() > 0 && line.last() == '\r' {
        line.drop_last()
    } else {
        line
    };
    if line.len() > 0 && line.last() == '\r' {
        assert(is_space('\r'));
        lemma_return_is_trimmed(line);
    }
    reveal(Seq::filter);
    assert(none.filter(filled) == none);
    assert(lines_of(s) == seq![first] + lines_of(rest));
    assert(lines_of(s).map_values(as_trimmed) == seq![trimmed(line)] + lines_of(rest).map_values(
        as_trimmed,
    ));
    let one = seq![trimmed(line)];
    assert(one == none.push(trimmed(line)));
    none.lemma_filter_push(trimmed(line), filled);
    Seq::filter_distributes_over_add(one, lines_of(rest).map_values(as_trimmed), filled);
    if line.len() > 0 {
        assert(lines_of(line).map_values(as_trimmed) == one);
        assert(filled_lines(line) == one.filter(filled));
    } else {
        assert(lines_of(line).map_values(as_trimmed) == none);
        assert(line == Seq::<char>::empty());
        assert(trimmed(line).len() == 0);
    }
    if trimmed(line).len() == 0 {
        assert(none + filled_lines(rest) == filled_lines(rest));
    } else {
        assert(none.push(trimmed(line)) == one);
    }
}

/// A text stands in another exactly if the other one is something, the text, and something.
pub proof fn occurrence_is_a_middle_part(hay: Seq<char>, needle: Seq<char>)
    ensures
        occurs(hay, needle) <==> exists|before: Seq<char>, after: Seq<char>|
            hay == #[trigger] (before + needle + after),
{
    if occurs(hay, needle) {
        let at = choose|at: int| occurs_at(hay, needle, at);
        let before = hay.take(at);
        let after = hay.skip(at + needle.len());
        assert(hay == before + hay.subrange(at, at + needle.len()) + after);
        assert(hay == before + needle + after);
    }
    if exists|before: Seq<char>, after: Seq<char>| hay == #[trigger] (before + needle + after) {
        let (before, after) = choose|before: Seq<char>, after: Seq<char>|
            hay == #[trigger] (before + needle + after);
        let at = before.len() as int;
        assert(hay.subrange(at, at + needle.len()) == needle);
        assert(occurs_at(hay, needle, at));
    }
}

/// Decimal notation is made of digits, begins with a zero only for zero itself, and gives the number
/// back that it was made from.
pub proof fn decimal_is_plain(n: nat)
    ensures
        decimal(n).len() > 0,
        forall|i: int| 0 <= i < decimal(n).len() ==> '0' <= #[trigger] decimal(n)[i] <= '9',
        n > 0 ==> decimal(n)[0] != '0',
        decimal_value(decimal(n)) == n,
    decreases n,
{
    decimal_reads_back(n);
    if n >= 10 {
        decimal_is_plain(n / 10);
    }
}

/// Decimal notation of a number of several digits is that of its leading part and its last digit.
pub proof fn decimal_value_of_digits(s: Seq<char>, last: char)
    ensures
        decimal_value(Seq::empty()) == 0,
        decimal_value(s.push(last)) == 10 * decimal_value(s) + (last as int - '0' as int),
{
    assert(s.push(last).drop_last() == s);
}

/// Joining puts the words one after another with the separator between two neighbours and nowhere
/// else.
pub proof fn joining_separates_neighbours(words: Seq<Seq<char>>, word: Seq<char>, sep: Seq<char>)
    ensures
        joined(Seq::empty(), sep) == Seq::<char>::empty(),
        joined(seq![word], sep) == word,
        words.len() > 0 ==> joined(words.push(word), sep) == joined(words, sep) + sep + word,
{
    assert(words.push(word).drop_last() == words);
}

/// Bytes that are UTF-8 stand for the text that they encode, all of it; other bytes for what the
/// standard library reads out of them.
pub proof fn output_is_read_as_it_is(bytes: Seq<u8>)
    ensures
        valid_utf8(bytes) ==> lossy_text(bytes) == decode_utf8(bytes),
        !valid_utf8(bytes) ==> lossy_text(bytes) == utf8_lossy(bytes),
{
}

/// Among the ASCII characters exactly the letters and digits count as alphanumeric, exactly the blank
/// and the characters from tab to carriage return as white space, and lower case changes the 26
/// capital letters alone.
pub proof fn ascii_is_classified(c: char, s: Seq<char>)
    ensures
        c as u32 <= 0x7f ==> (is_alphanumeric(c) <==> 0x30 <= c as u32 <= 0x39 || 0x41 <= c as u32
            <= 0x5a || 0x61 <= c as u32 <= 0x7a),
        c as u32 <= 0x7f ==> (is_space(c) <==> c as u32 == 0x20 || 0x09 <= c as u32 <= 0x0d),
        is_ascii_chars(s) ==> lowercase(s).len() == s.len() && forall|i: int|
            0 <= i < s.len() ==> (#[trigger] lowercase(s)[i]) as u32 == if 0x41 <= s[i] as u32
                <= 0x5a {
                (s[i] as u32 + 32) as u32
            } else {
                s[i] as u32
            },
{
    if is_ascii_chars(s) {
        assert forall|i: int| 0 <= i < s.len() implies (#[trigger] lowercase(s)[i]) as u32
            == if 0x41 <= s[i] as u32 <= 0x5a {
            (s[i] as u32 + 32) as u32
        } else {
            s[i] as u32
        } by {
            assert(lowercase(s)[i] == ascii_lowercase(s[i]));
        }
    }
}

/// A text that may be missing is seen as it is.
pub proof fn texts_are_seen_as_they_are(s: String)
    ensures
        text_in(Some(s)) == Some(s@),
        text_in(None) is None,
{
}

} // verus!
