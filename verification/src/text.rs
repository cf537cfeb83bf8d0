//! Text as sequences of characters: comparing, searching, numbering, and
//! splitting into lines.
use vstd::prelude::*;
use vstd::string::*;

verus! {

/// The decimal digit for a value below ten.
pub open spec fn digit(d: nat) -> char {
    if d == 0 {
        '0'
    } else if d == 1 {
        '1'
    } else if d == 2 {
        '2'
    } else if d == 3 {
        '3'
    } else if d == 4 {
        '4'
    } else if d == 5 {
        '5'
    } else if d == 6 {
        '6'
    } else if d == 7 {
        '7'
    } else if d == 8 {
        '8'
    } else {
        '9'
    }
}

/// The decimal notation of a natural number, without leading zeros.
pub open spec fn decimal(n: nat) -> Seq<char>
    decreases n,
{
    if n < 10 {
        seq![digit(n)]
    } else {
        decimal(n / 10).push(digit(n % 10))
    }
}

/// The decimal notation of an integer, with a leading `-` below zero.
pub open spec fn signed_decimal(n: int) -> Seq<char> {
    if n < 0 {
        seq!['-'] + decimal((-n) as nat)
    } else {
        decimal(n as nat)
    }
}

/// The contents of each string of a list.
pub open spec fn texts(list: Seq<String>) -> Seq<Seq<char>> {
    Seq::new(list.len(), |i: int| list[i]@)
}

fn digit_text(d: u64) -> (r: &'static str)
    requires
        d < 10,
    ensures
        r@ == seq![digit(d as nat)],
{
    proof {
        reveal_strlit("0");
        reveal_strlit("1");
        reveal_strlit("2");
        reveal_strlit("3");
        reveal_strlit("4");
        reveal_strlit("5");
        reveal_strlit("6");
        reveal_strlit("7");
        reveal_strlit("8");
        reveal_strlit("9");
    }
    if d == 0 {
        "0"
    } else if d == 1 {
        "1"
    } else if d == 2 {
        "2"
    } else if d == 3 {
        "3"
    } else if d == 4 {
        "4"
    } else if d == 5 {
        "5"
    } else if d == 6 {
        "6"
    } else if d == 7 {
        "7"
    } else if d == 8 {
        "8"
    } else {
        "9"
    }
}

/// Writes a natural number in decimal notation.
pub fn decimal_text(n: u64) -> (r: String)
    ensures
        r@ == decimal(n as nat),
    decreases n,
{
    if n < 10 {
        digit_text(n).to_owned()
    } else {
        let mut s: String = decimal_text(n / 10);
        s.append(digit_text(n % 10));
        proof {
            assert(decimal((n / 10) as nat) + seq![digit((n % 10) as nat)] =~= decimal(
                (n / 10) as nat,
            ).push(digit((n % 10) as nat)));
        }
        s
    }
}

/// Writes an integer in decimal notation.
pub fn signed_decimal_text(n: i64) -> (r: String)
    ensures
        r@ == signed_decimal(n as int),
{
    if n < 0 {
        let magnitude: u64 = (-(n + 1)) as u64 + 1;
        proof {
            reveal_strlit("-");
            assert("-"@ =~= seq!['-']);
        }
        let mut s: String = "-".to_owned();
        s.append(decimal_text(magnitude).as_str());
        s
    } else {
        decimal_text(n as u64)
    }
}

/// The characters of a text.
pub fn chars_of(s: &str) -> (r: Vec<char>)
    ensures
        r@ == s@,
{
    let mut v: Vec<char> = Vec::new();
    for c in it: s.chars()
        invariant
            v@ == it.seq().take(it.index()),
            it.seq() == s@,
    {
        v.push(c);
        proof {
            assert(it.seq().take(it.index() + 1) =~= it.seq().take(it.index()).push(c));
        }
    }
    proof {
        assert(s@.take(s@.len() as int) =~= s@);
    }
    v
}

/// Whether two texts are the same.
pub fn same_text(a: &str, b: &str) -> (r: bool)
    ensures
        r == (a@ == b@),
{
    let x: Vec<char> = chars_of(a);
    let y: Vec<char> = chars_of(b);
    if x.len() != y.len() {
        return false;
    }
    let mut i: usize = 0;
    while i < x.len()
        invariant
            i <= x.len(),
            x.len() == y.len(),
            x@ == a@,
            y@ == b@,
            forall|k: int| 0 <= k < i ==> x@[k] == y@[k],
        decreases x.len() - i,
    {
        if x[i] != y[i] {
            return false;
        }
        i += 1;
    }
    proof {
        assert(a@ =~= b@);
    }
    true
}

/// Whether `needle` stands in `hay` at position `at`.
pub open spec fn occurs_at(hay: Seq<char>, needle: Seq<char>, at: int) -> bool {
    &&& 0 <= at
    &&& at + needle.len() <= hay.len()
    &&& hay.subrange(at, at + needle.len()) == needle
}

/// Whether `needle` stands somewhere in `hay`.
pub open spec fn occurs_in(hay: Seq<char>, needle: Seq<char>) -> bool {
    exists|at: int| #[trigger] occurs_at(hay, needle, at)
}

fn matches_at(hay: &Vec<char>, needle: &Vec<char>, at: usize) -> (r: bool)
    requires
        at + needle@.len() <= hay@.len(),
    ensures
        r == occurs_at(hay@, needle@, at as int),
{
    let size: usize = hay.len();
    let mut i: usize = 0;
    while i < needle.len()
        invariant
            i <= needle@.len(),
            at + needle@.len() <= size,
            size == hay@.len(),
            forall|k: int| 0 <= k < i ==> #[trigger] needle@[k] == hay@[at + k],
        decreases needle.len() - i,
    {
        if hay[at + i] != needle[i] {
            proof {
                let part = hay@.subrange(at as int, at + needle@.len());
                assert(part[i as int] != needle@[i as int]);
            }
            return false;
        }
        i += 1;
    }
    proof {
        assert(hay@.subrange(at as int, at + needle@.len()) =~= needle@);
    }
    true
}

/// Whether `needle` stands somewhere in `hay`.
pub fn contains_text(hay: &str, needle: &str) -> (r: bool)
    ensures
        r == occurs_in(hay@, needle@),
{
    let h: Vec<char> = chars_of(hay);
    let n: Vec<char> = chars_of(needle);
    if n.len() > h.len() {
        return false;
    }
    let last: usize = h.len() - n.len();
    let mut at: usize = 0;
    loop
        invariant
            h@ == hay@,
            n@ == needle@,
            last + n@.len() == h@.len(),
            at <= last,
            forall|k: int| 0 <= k < at ==> !#[trigger] occurs_at(hay@, needle@, k),
        decreases last - at,
    {
        if matches_at(&h, &n, at) {
            return true;
        }
        if at == last {
            return false;
        }
        at += 1;
    }
}

/// Whether `s` begins with `prefix`.
pub open spec fn begins_with(s: Seq<char>, prefix: Seq<char>) -> bool {
    occurs_at(s, prefix, 0)
}

/// Whether `s` begins with `prefix`.
pub fn starts_with(s: &str, prefix: &str) -> (r: bool)
    ensures
        r == begins_with(s@, prefix@),
{
    let h: Vec<char> = chars_of(s);
    let n: Vec<char> = chars_of(prefix);
    n.len() <= h.len() && matches_at(&h, &n, 0)
}

/// The first `n` characters, or all of them where there are fewer.
pub open spec fn first_chars(s: Seq<char>, n: nat) -> Seq<char> {
    if s.len() <= n {
        s
    } else {
        s.take(n as int)
    }
}

/// The first `n` characters, or all of them where there are fewer.
pub fn truncated(s: &str, n: usize) -> (r: String)
    ensures
        r@ == first_chars(s@, n as nat),
{
    if s.unicode_len() <= n {
        s.to_owned()
    } else {
        s.substring_char(0, n).to_owned()
    }
}

/// One text behind the other.
pub fn joined(a: &str, b: &str) -> (r: String)
    ensures
        r@ == a@ + b@,
{
    let mut s: String = a.to_owned();
    s.append(b);
    s
}

/// Puts a text between two others.
pub fn enclosed(before: &str, middle: &str, after: &str) -> (r: String)
    ensures
        r@ == before@ + middle@ + after@,
{
    let mut s: String = before.to_owned();
    s.append(middle);
    s.append(after);
    s
}

/// The position of the first line feed from `from` on, or the length.
pub open spec fn line_end(t: Seq<char>, from: int) -> int
    decreases t.len() - from,
{
    if from >= t.len() {
        t.len() as int
    } else if t[from] == '\n' {
        from
    } else {
        line_end(t, from + 1)
    }
}

/// A line without the carriage return before its line feed.
pub open spec fn without_return(line: Seq<char>) -> Seq<char> {
    if line.len() > 0 && line.last() == '\r' {
        line.drop_last()
    } else {
        line
    }
}

/// The lines of a text from a position on. A line ends with a line feed, which
/// may have a carriage return before it and which the last line may lack.
pub open spec fn lines_from(t: Seq<char>, from: int) -> Seq<Seq<char>>
    decreases t.len() - from,
    when 0 <= from
    via lines_from_decreases
{
    if from >= t.len() {
        Seq::empty()
    } else if line_end(t, from) >= t.len() {
        seq![t.subrange(from, t.len() as int)]
    } else {
        seq![without_return(t.subrange(from, line_end(t, from)))] + lines_from(
            t,
            line_end(t, from) + 1,
        )
    }
}

#[via_fn]
proof fn lines_from_decreases(t: Seq<char>, from: int) {
    lemma_line_end(t, from);
}

/// The lines of a text.
pub open spec fn lines_of(t: Seq<char>) -> Seq<Seq<char>> {
    lines_from(t, 0)
}

pub proof fn lemma_line_end(t: Seq<char>, from: int)
    requires
        0 <= from,
    ensures
        from <= t.len() ==> from <= line_end(t, from) <= t.len(),
        line_end(t, from) < t.len() ==> t[line_end(t, from)] == '\n',
        forall|k: int| from <= k < line_end(t, from) && k < t.len() ==> #[trigger] t[k] != '\n',
    decreases t.len() - from,
{
    if from < t.len() && t[from] != '\n' {
        lemma_line_end(t, from + 1);
    }
}

/// The first `n` lines of a list, with line feeds between them.
pub open spec fn joined_first(lines: Seq<Seq<char>>, n: nat) -> Seq<char>
    decreases n,
{
    if n == 0 {
        Seq::empty()
    } else if n == 1 {
        lines[0]
    } else {
        joined_first(lines, (n - 1) as nat) + seq!['\n'] + lines[n - 1]
    }
}

/// The lines of a list, with line feeds between them.
pub open spec fn joined_lines(lines: Seq<Seq<char>>) -> Seq<char> {
    joined_first(lines, lines.len())
}

/// The lines of a text.
pub fn split_lines(content: &str) -> (r: Vec<String>)
    ensures
        texts(r@) == lines_of(content@),
{
    let t: Vec<char> = chars_of(content);
    let mut lines: Vec<String> = Vec::new();
    let mut from: usize = 0;
    proof {
        assert(texts(lines@) + lines_from(t@, 0) =~= lines_from(t@, 0));
    }
    while from < t.len()
        invariant
            t@ == content@,
            from <= t@.len(),
            texts(lines@) + lines_from(t@, from as int) == lines_of(t@),
        decreases t.len() - from,
    {
        let ghost start = from as int;
        let ghost before = lines@;
        let mut end: usize = from;
        while end < t.len() && t[end] != '\n'
            invariant
                t@ == content@,
                start == from,
                from <= end <= t@.len(),
                line_end(t@, start) == line_end(t@, end as int),
            decreases t.len() - end,
        {
            end += 1;
        }
        proof {
            lemma_line_end(t@, start);
        }
        let ghost line: Seq<char>;
        if end == t.len() {
            lines.push(content.substring_char(from, end).to_owned());
            proof {
                line = t@.subrange(start, t@.len() as int);
            }
            from = end;
        } else {
            proof {
                line = without_return(t@.subrange(start, end as int));
            }
            if end > from && t[end - 1] == '\r' {
                proof {
                    assert(t@.subrange(start, end as int).drop_last() =~= t@.subrange(
                        start,
                        end - 1,
                    ));
                }
                lines.push(content.substring_char(from, end - 1).to_owned());
            } else {
                lines.push(content.substring_char(from, end).to_owned());
            }
            from = end + 1;
        }
        proof {
            assert(texts(lines@) =~= texts(before).push(line));
            assert(lines_from(t@, start) =~= seq![line] + lines_from(t@, from as int));
            assert(texts(before) + lines_from(t@, start) =~= texts(before).push(line) + lines_from(
                t@,
                from as int,
            ));
        }
    }
    proof {
        assert(texts(lines@) + lines_from(t@, from as int) =~= texts(lines@));
    }
    lines
}

/// Puts lines together, with line feeds between them.
pub fn join_lines(lines: &Vec<String>) -> (r: String)
    ensures
        r@ == joined_lines(texts(lines@)),
{
    let mut s: String = String::new();
    let mut i: usize = 0;
    while i < lines.len()
        invariant
            i <= lines@.len(),
            s@ == joined_first(texts(lines@), i as nat),
        decreases lines.len() - i,
    {
        let ghost before = s@;
        if i > 0 {
            s.append("\n");
        }
        s.append(lines[i].as_str());
        proof {
            reveal_strlit("\n");
            assert("\n"@ =~= seq!['\n']);
            assert(i == 0 ==> s@ =~= lines@[0]@);
        }
        i += 1;
    }
    s
}

/// No line of a text holds a line feed.
pub proof fn lemma_lines_have_no_feed(t: Seq<char>, from: int)
    requires
        0 <= from,
    ensures
        forall|k: int|
            0 <= k < lines_from(t, from).len() ==> !(#[trigger] lines_from(t, from)[k]).contains(
                '\n',
            ),
    decreases t.len() - from,
{
    lemma_line_end(t, from);
    if from < t.len() {
        let end = line_end(t, from);
        let line = t.subrange(from, end);
        assert forall|i: int| 0 <= i < line.len() implies line[i] != '\n' by {
            assert(t[from + i] != '\n');
        }
        if end < t.len() {
            lemma_lines_have_no_feed(t, end + 1);
            let rest = lines_from(t, end + 1);
            assert forall|k: int| 0 <= k < lines_from(t, from).len() implies !(
            #[trigger] lines_from(t, from)[k]).contains('\n') by {
                if k > 0 {
                    assert(lines_from(t, from)[k] == rest[k - 1]);
                } else {
                    assert(lines_from(t, from)[0] == without_return(line));
                }
            }
        }
    }
}

proof fn lemma_joined_prefix(lines: Seq<Seq<char>>, m: nat, n: nat)
    requires
        m <= n,
    ensures
        joined_first(lines, m).len() <= joined_first(lines, n).len(),
        joined_first(lines, n).take(joined_first(lines, m).len() as int) =~= joined_first(lines, m),
        0 < m < n ==> joined_first(lines, m).len() < joined_first(lines, n).len() && joined_first(
            lines,
            n,
        )[joined_first(lines, m).len() as int] == '\n',
    decreases n,
{
    if m < n {
        lemma_joined_prefix(lines, m, (n - 1) as nat);
        if n > 1 {
            let shorter = joined_first(lines, (n - 1) as nat);
            let longer = joined_first(lines, n);
            assert(longer.take(shorter.len() as int) =~= shorter);
            assert(longer[shorter.len() as int] == '\n');
        }
    }
}

/// The position at which a line begins in the joined text.
spec fn line_start(lines: Seq<Seq<char>>, k: nat) -> int {
    if k == 0 {
        0
    } else {
        joined_first(lines, k).len() as int + 1
    }
}

proof fn lemma_lines_from_joined(lines: Seq<Seq<char>>, k: nat)
    requires
        k < lines.len(),
        forall|i: int| 0 <= i < lines.len() ==> !(#[trigger] lines[i]).contains('\n'),
        forall|i: int|
            0 <= i < lines.len() - 1 ==> without_return(#[trigger] lines[i]) == lines[i],
        lines.last().len() > 0,
    ensures
        lines_from(joined_lines(lines), line_start(lines, k)) == lines.skip(k as int),
    decreases lines.len() - k,
{
    let n = lines.len();
    let text = joined_lines(lines);
    let start = line_start(lines, k);
    let end = joined_first(lines, k + 1).len() as int;
    let line = lines[k as int];
    lemma_joined_prefix(lines, k + 1, n);
    assert(text.subrange(start, end) =~= line) by {
        let upto = joined_first(lines, k + 1);
        assert(text.take(end) =~= upto);
        assert(upto.subrange(start, end) =~= line);
        assert forall|i: int| start <= i < end implies text[i] == upto[i] by {
            assert(text.take(end)[i] == text[i]);
        }
    }
    assert forall|i: int| start <= i < end implies text[i] != '\n' by {
        assert(text.subrange(start, end)[i - start] == line[i - start]);
        assert(line.contains(line[i - start]));
    }
    lemma_line_end(text, start);
    if k + 1 < n {
        assert(text[end] == '\n');
        assert(line_end(text, start) == end);
        lemma_lines_from_joined(lines, k + 1);
        assert(lines.skip(k as int) =~= seq![line] + lines.skip(k as int + 1));
    } else {
        assert(end == text.len());
        assert(start < end);
        assert(line_end(text, start) == end);
        assert(lines.skip(k as int) =~= seq![line]);
    }
}

/// Joined lines read back as the same lines, where none holds a line feed,
/// none but the last ends with a carriage return, and the last is not empty.
pub proof fn lemma_lines_of_joined(lines: Seq<Seq<char>>)
    requires
        forall|i: int| 0 <= i < lines.len() ==> !(#[trigger] lines[i]).contains('\n'),
        forall|i: int|
            0 <= i < lines.len() - 1 ==> without_return(#[trigger] lines[i]) == lines[i],
        lines.len() > 0 ==> lines.last().len() > 0,
    ensures
        lines_of(joined_lines(lines)) == lines,
{
    if lines.len() > 0 {
        lemma_lines_from_joined(lines, 0);
        assert(lines.skip(0) =~= lines);
    } else {
        assert(lines_of(joined_lines(lines)) =~= lines);
    }
}

/// A number of one digit is written as that digit, and every other number as
/// the number without its last digit, followed by that digit.
pub proof fn law_decimal_goes_digit_by_digit(n: nat, d: nat)
    requires
        d < 10,
    ensures
        n > 0 ==> decimal(10 * n + d) == decimal(n) + decimal(d),
        decimal(0) == "0"@,
        decimal(1) == "1"@,
        decimal(2) == "2"@,
        decimal(3) == "3"@,
        decimal(4) == "4"@,
        decimal(5) == "5"@,
        decimal(6) == "6"@,
        decimal(7) == "7"@,
        decimal(8) == "8"@,
        decimal(9) == "9"@,
{
    reveal_strlit("0");
    reveal_strlit("1");
    reveal_strlit("2");
    reveal_strlit("3");
    reveal_strlit("4");
    reveal_strlit("5");
    reveal_strlit("6");
    reveal_strlit("7");
    reveal_strlit("8");
    reveal_strlit("9");
    assert(decimal(0) =~= "0"@);
    assert(decimal(1) =~= "1"@);
    assert(decimal(2) =~= "2"@);
    assert(decimal(3) =~= "3"@);
    assert(decimal(4) =~= "4"@);
    assert(decimal(5) =~= "5"@);
    assert(decimal(6) =~= "6"@);
    assert(decimal(7) =~= "7"@);
    assert(decimal(8) =~= "8"@);
    assert(decimal(9) =~= "9"@);
    if n > 0 {
        assert((10 * n + d) / 10 == n);
        assert((10 * n + d) % 10 == d);
        assert(decimal(10 * n + d) =~= decimal(n) + decimal(d));
    }
}

/// A number below zero is written as its magnitude behind a minus sign, and
/// any other number as it is.
pub proof fn law_sign_stands_in_front(n: nat)
    ensures
        signed_decimal(n as int) == decimal(n),
        n > 0 ==> signed_decimal(-(n as int)) == "-"@ + decimal(n),
{
    reveal_strlit("-");
    assert("-"@ =~= seq!['-']);
}

/// A text is found exactly where it stands between what comes before it and
/// what comes behind it.
pub proof fn law_found_text_stands_in_between(hay: Seq<char>, needle: Seq<char>)
    ensures
        occurs_in(hay, needle) <==> exists|before: Seq<char>, after: Seq<char>|
            hay == #[trigger] (before + needle + after),
{
    if occurs_in(hay, needle) {
        let at = choose|at: int| #[trigger] occurs_at(hay, needle, at);
        let before = hay.take(at);
        let after = hay.skip(at + needle.len());
        assert forall|i: int| 0 <= i < needle.len() implies hay[at + i] == needle[i] by {
            assert(hay.subrange(at, at + needle.len())[i] == hay[at + i]);
        }
        assert(hay =~= before + needle + after);
    }
    if exists|before: Seq<char>, after: Seq<char>| hay == #[trigger] (before + needle + after) {
        let (before, after) = choose|before: Seq<char>, after: Seq<char>|
            hay == #[trigger] (before + needle + after);
        assert(hay.subrange(before.len() as int, (before.len() + needle.len()) as int) =~= needle);
        assert(occurs_at(hay, needle, before.len() as int));
    }
}

/// A text begins with another exactly where something follows the other.
pub proof fn law_beginning_is_followed(s: Seq<char>, prefix: Seq<char>)
    ensures
        begins_with(s, prefix) <==> exists|rest: Seq<char>| s == #[trigger] (prefix + rest),
{
    if begins_with(s, prefix) {
        let rest = s.skip(prefix.len() as int);
        assert forall|i: int| 0 <= i < prefix.len() implies s[i] == prefix[i] by {
            assert(s.subrange(0, prefix.len() as int)[i] == s[i]);
        }
        assert(s =~= prefix + rest);
    }
    if exists|rest: Seq<char>| s == #[trigger] (prefix + rest) {
        let rest = choose|rest: Seq<char>| s == #[trigger] (prefix + rest);
        assert(s.subrange(0, prefix.len() as int) =~= prefix);
    }
}

/// What is cut off a text stands behind what is kept; nothing is cut off a
/// text that is short enough.
pub proof fn law_cut_keeps_the_beginning(kept: Seq<char>, rest: Seq<char>, n: nat)
    requires
        kept.len() == n || (kept.len() < n && rest.len() == 0),
    ensures
        first_chars(kept + rest, n) == kept,
{
    assert(first_chars(kept + rest, n) =~= kept);
}

/// A line ends at its line feed, which is not part of it, nor is a carriage
/// return before it; the lines behind it are those of what is left. A text
/// without a line feed is one line, and an empty text none.
pub proof fn law_line_ends_at_its_feed(line: Seq<char>, rest: Seq<char>)
    requires
        !line.contains('\n'),
    ensures
        lines_of(Seq::empty()) == Seq::<Seq<char>>::empty(),
        line.len() > 0 ==> lines_of(line) == seq![line],
        (line.len() == 0 || line.last() != '\r') ==> lines_of(line + seq!['\n'] + rest) == seq![
            line,
        ] + lines_of(rest),
        lines_of(line + seq!['\r', '\n'] + rest) == seq![line] + lines_of(rest),
{
    assert(lines_of(Seq::empty()) =~= Seq::<Seq<char>>::empty());
    assert forall|k: int| 0 <= k < line.len() implies line[k] != '\n' by {
        assert(line.contains(line[k]));
    }
    if line.len() > 0 {
        lemma_line_end(line, 0);
        assert(line.subrange(0, line.len() as int) =~= line);
    }
    let plain = line + seq!['\n'] + rest;
    lemma_line_end(plain, 0);
    assert(plain[line.len() as int] == '\n');
    assert forall|k: int| 0 <= k < line.len() implies plain[k] != '\n' by {
        assert(plain[k] == line[k]);
    }
    assert(line_end(plain, 0) == line.len());
    assert(plain.subrange(0, line.len() as int) =~= line);
    lemma_lines_shift(line + seq!['\n'], rest, 0);
    let returned = line + seq!['\r', '\n'] + rest;
    let n = line.len() as int + 1;
    lemma_line_end(returned, 0);
    assert(returned[n] == '\n');
    assert forall|k: int| 0 <= k < n implies returned[k] != '\n' by {
        if k < line.len() {
            assert(returned[k] == line[k]);
        }
    }
    assert(line_end(returned, 0) == n);
    assert(returned.subrange(0, n) =~= line.push('\r'));
    assert(line.push('\r').drop_last() =~= line);
    lemma_lines_shift(line + seq!['\r', '\n'], rest, 0);
}

proof fn lemma_line_end_shift(front: Seq<char>, t: Seq<char>, from: int)
    requires
        0 <= from <= t.len(),
    ensures
        line_end(front + t, front.len() + from) == front.len() + line_end(t, from),
    decreases t.len() - from,
{
    if from < t.len() && t[from] != '\n' {
        lemma_line_end_shift(front, t, from + 1);
    }
}

proof fn lemma_lines_shift(front: Seq<char>, t: Seq<char>, from: int)
    requires
        0 <= from,
    ensures
        lines_from(front + t, front.len() + from) == lines_from(t, from),
    decreases t.len() - from,
{
    if from < t.len() {
        lemma_line_end(t, from);
        lemma_line_end_shift(front, t, from);
        let end = line_end(t, from);
        assert((front + t).subrange(front.len() + from, front.len() + end) =~= t.subrange(
            from,
            end,
        ));
        if end < t.len() {
            lemma_lines_shift(front, t, end + 1);
        }
    }
}

/// Joined lines stand one behind the other, with one line feed between two.
pub proof fn law_joined_lines_have_feeds_between(lines: Seq<Seq<char>>, last: Seq<char>)
    ensures
        joined_lines(Seq::empty()) == Seq::<char>::empty(),
        lines.len() == 0 ==> joined_lines(lines.push(last)) == last,
        lines.len() > 0 ==> joined_lines(lines.push(last)) == joined_lines(lines) + seq!['\n']
            + last,
{
    if lines.len() > 0 {
        lemma_joined_first_ignores_the_rest(lines, last, lines.len());
    }
}

proof fn lemma_joined_first_ignores_the_rest(lines: Seq<Seq<char>>, last: Seq<char>, n: nat)
    requires
        n <= lines.len(),
    ensures
        joined_first(lines.push(last), n) == joined_first(lines, n),
    decreases n,
{
    if n > 1 {
        lemma_joined_first_ignores_the_rest(lines, last, (n - 1) as nat);
    }
}

/// The contents of a list of strings are those of its strings, each at its
/// place.
pub proof fn law_texts_are_those_of_the_strings(list: Seq<String>, i: int)
    requires
        0 <= i < list.len(),
    ensures
        texts(list).len() == list.len(),
        texts(list)[i] == list[i]@,
{
}

} // verus!
