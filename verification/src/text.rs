//! Text: decimal numbers, separated lists, trimming and splitting.
use vstd::prelude::*;
use vstd::string::*;

verus! {

/// The character that stands for a decimal digit.
pub open spec fn digit_char(d: nat) -> char {
    if d == 0 { '0' } else if d == 1 { '1' } else if d == 2 { '2' } else if d == 3 { '3' }
    else if d == 4 { '4' } else if d == 5 { '5' } else if d == 6 { '6' } else if d == 7 { '7' }
    else if d == 8 { '8' } else { '9' }
}

/// A number in decimal, without leading zeros.
pub open spec fn decimal(n: nat) -> Seq<char>
    decreases n,
{
    if n < 10 {
        seq![digit_char(n)]
    } else {
        decimal(n / 10).push(digit_char(n % 10))
    }
}

/// The text of one decimal digit.
fn digit_text(d: usize) -> (r: &'static str)
    requires
        d < 10,
    ensures
        r@ == seq![digit_char(d as nat)],
{
    proof {
        reveal_strlit("0");
        reveal_strlit("1");
        reveal_strlit("2");
        reveal_strlit("3");
        reveal_strlit("4");
        reveal_strlit("5");
        reveal_strlit("6");
        reveal_strlit("7");
        reveal_strlit("8");
        reveal_strlit("9");
    }
    let r = match d {
        0 => "0",
        1 => "1",
        2 => "2",
        3 => "3",
        4 => "4",
        5 => "5",
        6 => "6",
        7 => "7",
        8 => "8",
        _ => "9",
    };
    assert(r@ =~= seq![digit_char(d as nat)]);
    r
}

/// Writes a number in decimal.
pub fn decimal_text(n: usize) -> (r: String)
    ensures
        r@ == decimal(n as nat),
    decreases n,
{
    if n < 10 {
        digit_text(n).to_owned()
    } else {
        let mut r = decimal_text(n / 10);
        r.append(digit_text(n % 10));
        assert(r@ =~= decimal((n / 10) as nat).push(digit_char((n % 10) as nat)));
        r
    }
}

/// `n` copies of `item`, each two with `separator` between them.
pub open spec fn repeated(item: Seq<char>, separator: Seq<char>, n: nat) -> Seq<char>
    decreases n,
{
    if n == 0 {
        Seq::empty()
    } else if n == 1 {
        item
    } else {
        repeated(item, separator, (n - 1) as nat) + separator + item
    }
}

/// Writes `n` copies of `item`, each two with `separator` between them.
pub fn repeat_separated(item: &str, separator: &str, n: usize) -> (r: String)
    ensures
        r@ == repeated(item@, separator@, n as nat),
{
    let mut r = String::new();
    let mut i: usize = 0;
    while i < n
        invariant
            i <= n,
            r@ == repeated(item@, separator@, i as nat),
        decreases n - i,
    {
        if i > 0 {
            r.append(separator);
        }
        r.append(item);
        i += 1;
        assert(r@ =~= repeated(item@, separator@, i as nat));
    }
    r
}

/// The texts of a list of strings.
pub open spec fn texts(list: Seq<String>) -> Seq<Seq<char>> {
    list.map_values(|t: String| t@)
}

/// The text of an optional string.
pub open spec fn optional_text(t: Option<String>) -> Option<Seq<char>> {
    match t {
        Some(t) => Some(t@),
        None => None,
    }
}

/// Copies an optional string.
pub fn copy_text(t: &Option<String>) -> (r: Option<String>)
    ensures
        r == *t,
{
    match t {
        Some(t) => Some(t.clone()),
        None => None,
    }
}

/// Says whether two texts are the same.
pub fn same_text(a: &str, b: &str) -> (r: bool)
    ensures
        r == (a@ == b@),
{
    a.to_owned() == b.to_owned()
}

/// Puts texts one behind the other.
pub fn concat3(a: &str, b: &str, c: &str) -> (r: String)
    ensures
        r@ == a@ + b@ + c@,
{
    let mut r = a.to_owned();
    r.append(b);
    r.append(c);
    r
}

/// The parts of `s` between the occurrences of `mark`, in order.
pub open spec fn split_parts(s: Seq<char>, mark: char) -> Seq<Seq<char>>
    decreases s.len(),
{
    if s.len() == 0 {
        seq![s]
    } else if s.last() == mark {
        split_parts(s.drop_last(), mark).push(Seq::empty())
    } else {
        let front = split_parts(s.drop_last(), mark);
        front.drop_last().push(front.last().push(s.last()))
    }
}

/// The parts one behind the other, with `mark` between each two of them.
pub open spec fn joined_parts(parts: Seq<Seq<char>>, mark: char) -> Seq<char>
    decreases parts.len(),
{
    if parts.len() == 0 {
        Seq::empty()
    } else if parts.len() == 1 {
        parts[0]
    } else {
        joined_parts(parts.drop_last(), mark).push(mark) + parts.last()
    }
}

/// Splitting a text at a mark loses nothing: joined with the mark again, the
/// parts are the text, no part holds the mark, and there is at least one part.
pub proof fn lemma_split_joins_back(s: Seq<char>, mark: char)
    ensures
        split_parts(s, mark).len() >= 1,
        joined_parts(split_parts(s, mark), mark) == s,
        forall|i: int| 0 <= i < split_parts(s, mark).len() ==> !(
        #[trigger] split_parts(s, mark)[i]).contains(mark),
    decreases s.len(),
{
    if s.len() > 0 {
        let front = s.drop_last();
        lemma_split_joins_back(front, mark);
        let parts = split_parts(front, mark);
        if s.last() == mark {
            assert(split_parts(s, mark).drop_last() =~= parts);
            assert(joined_parts(split_parts(s, mark), mark) =~= front.push(mark));
            assert(s =~= front.push(mark));
        } else {
            let now = split_parts(s, mark);
            assert(now.drop_last() =~= parts.drop_last());
            assert(s =~= front.push(s.last()));
            assert(joined_parts(now, mark) =~= joined_parts(parts, mark).push(s.last()));
            assert forall|i: int| 0 <= i < now.len() implies !(#[trigger] now[i]).contains(
                mark,
            ) by {
                if i == now.len() - 1 {
                    let p = parts.last();
                    assert(!parts[parts.len() - 1].contains(mark));
                    assert forall|j: int| 0 <= j < now[i].len() implies now[i][j] != mark by {
                        if j < p.len() {
                            assert(p.contains(p[j]));
                        }
                    }
                } else {
                    assert(now[i] == parts[i]);
                }
            }
        }
    }
}

/// Splits a text at every occurrence of `mark`.
pub fn split_text(s: &str, mark: char) -> (r: Vec<String>)
    ensures
        texts(r@) == split_parts(s@, mark),
{
    let n: usize = s.unicode_len();
    let mut parts: Vec<String> = Vec::new();
    let mut start: usize = 0;
    let mut i: usize = 0;
    while i < n
        invariant
            n == s@.len(),
            start <= i <= n,
            texts(parts@).push(s@.subrange(start as int, i as int)) == split_parts(
                s@.take(i as int),
                mark,
            ),
        decreases n - i,
    {
        let ghost before = texts(parts@);
        assert(s@.take(i + 1).drop_last() =~= s@.take(i as int));
        let front = Ghost(split_parts(s@.take(i as int), mark));
        assert(front@.drop_last() =~= before);
        if s.get_char(i) == mark {
            let part = s.substring_char(start, i).to_owned();
            parts.push(part);
            start = i + 1;
            assert(texts(parts@) =~= before.push(part@));
            assert(s@.subrange(start as int, i + 1) =~= Seq::<char>::empty());
        } else {
            assert(s@.subrange(start as int, i + 1) =~= s@.subrange(start as int, i as int).push(
                s@[i as int],
            ));
        }
        i += 1;
    }
    let ghost before = texts(parts@);
    let part = s.substring_char(start, n).to_owned();
    parts.push(part);
    assert(texts(parts@) =~= before.push(part@));
    assert(s@.take(n as int) =~= s@);
    parts
}

/// Whether Unicode counts a character as white space.
pub open spec fn is_white(c: char) -> bool {
    let v = c as int;
    ||| 0x9 <= v <= 0xd
    ||| v == 0x20 || v == 0x85 || v == 0xa0 || v == 0x1680
    ||| 0x2000 <= v <= 0x200a
    ||| v == 0x2028 || v == 0x2029 || v == 0x202f || v == 0x205f || v == 0x3000
}

/// A text without the white space at its two ends.
pub open spec fn trimmed(s: Seq<char>) -> Seq<char>
    decreases s.len(),
{
    if s.len() == 0 {
        s
    } else if is_white(s.first()) {
        trimmed(s.drop_first())
    } else if is_white(s.last()) {
        trimmed(s.drop_last())
    } else {
        s
    }
}

/// What is left of a text without the white space at its ends has none there, and is a
/// part of the text.
pub proof fn lemma_trimmed(s: Seq<char>) -> (r: (int, int))
    ensures
        trimmed(s).len() > 0 ==> !is_white(trimmed(s).first()) && !is_white(trimmed(s).last()),
        0 <= r.0 <= r.1 <= s.len(),
        trimmed(s) == s.subrange(r.0, r.1),
        trimmed(trimmed(s)) == trimmed(s),
    decreases s.len(),
{
    if s.len() == 0 {
        assert(s =~= s.subrange(0, 0));
        (0, 0)
    } else if is_white(s.first()) {
        let rest = lemma_trimmed(s.drop_first());
        assert(s.drop_first().subrange(rest.0, rest.1) =~= s.subrange(rest.0 + 1, rest.1 + 1));
        (rest.0 + 1, rest.1 + 1)
    } else if is_white(s.last()) {
        let rest = lemma_trimmed(s.drop_last());
        assert(s.drop_last().subrange(rest.0, rest.1) =~= s.subrange(rest.0, rest.1));
        rest
    } else {
        assert(s =~= s.subrange(0, s.len() as int));
        (0, s.len() as int)
    }
}

/// Says whether Unicode counts a character as white space.
fn is_white_space(c: char) -> (r: bool)
    ensures
        r == is_white(c),
{
    let v: u32 = c as u32;
    (0x9 <= v && v <= 0xd) || v == 0x20 || v == 0x85 || v == 0xa0 || v == 0x1680 || (0x2000 <= v
        && v <= 0x200a) || v == 0x2028 || v == 0x2029 || v == 0x202f || v == 0x205f || v == 0x3000
}

/// Takes the white space off the two ends.
pub(crate) fn trim_text(s: &str) -> (r: String)
    ensures
        r@ == trimmed(s@),
{
    let n: usize = s.unicode_len();
    let mut start: usize = 0;
    assert(s@.subrange(0, n as int) =~= s@);
    while start < n && is_white_space(s.get_char(start))
        invariant
            start <= n == s@.len(),
            trimmed(s@) == trimmed(s@.subrange(start as int, n as int)),
        decreases n - start,
    {
        assert(s@.subrange(start as int, n as int).drop_first() =~= s@.subrange(
            start + 1,
            n as int,
        ));
        start += 1;
    }
    let mut end: usize = n;
    while start < end && is_white_space(s.get_char(end - 1))
        invariant
            start <= end <= n == s@.len(),
            start < end ==> !is_white(s@[start as int]),
            trimmed(s@) == trimmed(s@.subrange(start as int, end as int)),
        decreases end,
    {
        assert(s@.subrange(start as int, end as int).drop_last() =~= s@.subrange(
            start as int,
            end - 1,
        ));
        end -= 1;
    }
    s.substring_char(start, end).to_owned()
}

/// What `str::to_lowercase` makes of a text.
pub uninterp spec fn lowercased(s: Seq<char>) -> Seq<char>;

/// The lower case of an ASCII character.
pub open spec fn ascii_lower(c: char) -> char {
    if 'A' <= c && c <= 'Z' {
        (c as int + 32) as char
    } else {
        c
    }
}

/// `str::to_lowercase`. The result is a function of the text alone; of a text of
/// ASCII characters it changes the capital letters only, each to its small letter.
#[verifier::external_body]
pub(crate) fn lowercase_text(s: &str) -> (r: String)
    ensures
        r@ == lowercased(s@),
        is_ascii(s) ==> r@ == s@.map_values(|c: char| ascii_lower(c)),
{
    s.to_lowercase()
}

/// Nothing but white space is taken off a text: what is left stands between two parts that
/// are white space alone, and a text whose ends are not stays as it is.
pub proof fn lemma_only_white_space_is_trimmed(s: Seq<char>) -> (r: (int, int))
    ensures
        0 <= r.0 <= r.1 <= s.len(),
        trimmed(s) == s.subrange(r.0, r.1),
        forall|i: int| 0 <= i < r.0 || r.1 <= i < s.len() ==> is_white(#[trigger] s[i]),
        s.len() > 0 && !is_white(s.first()) && !is_white(s.last()) ==> trimmed(s) == s,
        is_white(' ') && is_white('\t') && is_white('\n') && is_white('\r'),
        !is_white('a') && !is_white('.') && !is_white('-') && !is_white('0'),
    decreases s.len(),
{
    if s.len() == 0 {
        assert(s =~= s.subrange(0, 0));
        (0, 0)
    } else if is_white(s.first()) {
        let rest = s.drop_first();
        let cut = lemma_only_white_space_is_trimmed(rest);
        assert(rest.subrange(cut.0, cut.1) =~= s.subrange(cut.0 + 1, cut.1 + 1));
        assert forall|i: int| 0 <= i < cut.0 + 1 || cut.1 + 1 <= i < s.len() implies is_white(
            #[trigger] s[i],
        ) by {
            if i > 0 {
                assert(is_white(rest[i - 1]));
            }
        }
        (cut.0 + 1, cut.1 + 1)
    } else if is_white(s.last()) {
        let rest = s.drop_last();
        let cut = lemma_only_white_space_is_trimmed(rest);
        assert(rest.subrange(cut.0, cut.1) =~= s.subrange(cut.0, cut.1));
        assert forall|i: int| 0 <= i < cut.0 || cut.1 <= i < s.len() implies is_white(
            #[trigger] s[i],
        ) by {
            if i < rest.len() {
                assert(is_white(rest[i]));
            }
        }
        cut
    } else {
        assert(s =~= s.subrange(0, s.len() as int));
        (0, s.len() as int)
    }
}

/// The number that a text of decimal digits stands for.
pub open spec fn decimal_value(s: Seq<char>) -> int
    decreases s.len(),
{
    if s.len() == 0 {
        0
    } else {
        10 * decimal_value(s.drop_last()) + (s.last() as int - '0' as int)
    }
}

/// A number is read as it was written: its text is made of digits, and stands for it.
pub proof fn lemma_decimal_reads_back(n: nat)
    ensures
        decimal_value(decimal(n)) == n,
        decimal(n).len() > 0,
        forall|i: int| 0 <= i < decimal(n).len() ==> '0' <= #[trigger] decimal(n)[i] <= '9',
        n >= 10 ==> decimal(n)[0] != '0',
    decreases n,
{
    reveal_with_fuel(decimal_value, 2);
    if n < 10 {
        assert(decimal(n).drop_last() =~= Seq::<char>::empty());
    } else {
        lemma_decimal_reads_back(n / 10);
        assert(decimal(n).drop_last() =~= decimal(n / 10));
        if n / 10 < 10 {
            assert(decimal(n / 10)[0] == digit_char(n / 10));
        }
    }
}

/// Copies of a text with a separator between them are as long as the copies and the
/// separators are together, and begin with the first copy.
pub proof fn lemma_repeated_len(item: Seq<char>, separator: Seq<char>, n: nat)
    ensures
        n == 0 ==> repeated(item, separator, n).len() == 0,
        n > 0 ==> repeated(item, separator, n).len() == n * item.len() + (n - 1) * separator.len(),
        n > 0 ==> item.is_prefix_of(repeated(item, separator, n)),
    decreases n,
{
    if n == 1 {
        assert(1 * item.len() + 0 * separator.len() == item.len()) by (nonlinear_arith);
        assert(item =~= repeated(item, separator, n).take(item.len() as int));
    } else if n > 1 {
        let m = (n - 1) as nat;
        lemma_repeated_len(item, separator, m);
        let a = item.len();
        let b = separator.len();
        assert(n * a + (n - 1) * b == (n - 1) * a + (n - 2) * b + b + a) by (nonlinear_arith)
            requires
                n > 1,
        ;
        assert(item =~= repeated(item, separator, n).take(item.len() as int));
    }
}

}
