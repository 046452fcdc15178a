//! Text: the string operations that the rest of the library is stated over.
//!
//! A string is seen as the sequence of its characters. The operations that the
//! standard library documents in a line or two (trimming, splitting, replacing,
//! lines, decimal numbers) are defined and implemented here; those that rest on
//! Unicode tables (lower case) or on lossy decoding go through the standard library.

use vstd::prelude::*;
use vstd::utf8::*;

verus! {

broadcast use vstd::string::group_string_axioms;

/// `String::push` appends one character to the end of the string.
pub assume_specification[ String::push ](s: &mut String, c: char)
    ensures
        final(s)@ == old(s)@.push(c),
;

/// The texts of a list of strings.
pub open spec fn views(v: Seq<String>) -> Seq<Seq<char>> {
    v.map_values(|s: String| s@)
}

/// The texts of a list of pairs of strings.
pub open spec fn pair_views(v: Seq<(String, String)>) -> Seq<(Seq<char>, Seq<char>)> {
    v.map_values(|p: (String, String)| (p.0@, p.1@))
}

/// The text of an optional string slice.
pub open spec fn opt_str(o: Option<&str>) -> Option<Seq<char>> {
    match o {
        Some(s) => Some(s@),
        None => None,
    }
}

/// The text of an optional string.
pub open spec fn opt_string(o: Option<String>) -> Option<Seq<char>> {
    match o {
        Some(s) => Some(s@),
        None => None,
    }
}

/// The characters of a string, in order.
pub(crate) fn chars_of(s: &str) -> (r: Vec<char>)
    ensures
        r@ == s@,
{
    let mut out: Vec<char> = Vec::new();
    for c in it: s.chars()
        invariant
            out@ == it.seq().take(it.index()),
            it.seq() == s@,
    {
        out.push(c);
    }
    out
}

/// The string made of the characters from `from` up to `to`.
pub(crate) fn string_range(v: &[char], from: usize, to: usize) -> (r: String)
    requires
        from <= to <= v@.len(),
    ensures
        r@ == v@.subrange(from as int, to as int),
{
    let mut out = String::new();
    let mut i: usize = from;
    while i < to
        invariant
            from <= i <= to <= v@.len(),
            out@ == v@.subrange(from as int, i as int),
        decreases to - i,
    {
        out.push(v[i]);
        i += 1;
    }
    out
}

/// The string made of the given characters.
pub(crate) fn string_of(v: &[char]) -> (r: String)
    ensures
        r@ == v@,
{
    let r = string_range(v, 0, v.len());
    assert(v@.subrange(0, v@.len() as int) == v@);
    r
}

/// Two texts, one after the other.
pub(crate) fn cat(a: &str, b: &str) -> (r: String)
    ensures
        r@ == a@ + b@,
{
    a.to_owned().concat(b)
}

/// Three texts, one after the other.
pub(crate) fn cat3(a: &str, b: &str, c: &str) -> (r: String)
    ensures
        r@ == a@ + b@ + c@,
{
    a.to_owned().concat(b).concat(c)
}

/// Whether two texts are the same.
pub(crate) fn same(a: &str, b: &str) -> (r: bool)
    ensures
        r == (a@ == b@),
{
    a.to_owned() == b.to_owned()
}

/// Whether a list of texts holds the given one.
pub(crate) fn holds(list: &Vec<String>, s: &str) -> (r: bool)
    ensures
        r == views(list@).contains(s@),
{
    let mut i: usize = 0;
    while i < list.len()
        invariant
            i <= list@.len(),
            forall|j: int| 0 <= j < i ==> views(list@)[j] != s@,
        decreases list@.len() - i,
    {
        if same(list[i].as_str(), s) {
            assert(views(list@)[i as int] == s@);
            return true;
        }
        i += 1;
    }
    false
}

/// Adds a pair of texts to a list.
pub(crate) fn push_pair(list: &mut Vec<(String, String)>, name: &str, value: &str)
    ensures
        pair_views(final(list)@) == pair_views(old(list)@).push((name@, value@)),
{
    list.push((name.to_owned(), value.to_owned()));
    assert(pair_views(list@) =~= pair_views(old(list)@).push((name@, value@)));
}

/// Whether `s` begins with `prefix`.
pub(crate) fn starts_with(s: &str, prefix: &str) -> (r: bool)
    ensures
        r == prefix@.is_prefix_of(s@),
{
    let v = chars_of(s);
    let p = chars_of(prefix);
    starts_at(v.as_slice(), p.as_slice(), 0)
}

/// Whether `s` ends with `suffix`.
pub(crate) fn ends_with(s: &str, suffix: &str) -> (r: bool)
    ensures
        r == suffix@.is_suffix_of(s@),
{
    let v = chars_of(s);
    let p = chars_of(suffix);
    if p.len() > v.len() {
        return false;
    }
    let from: usize = v.len() - p.len();
    let r = starts_at(v.as_slice(), p.as_slice(), from);
    assert(r == occurs_at(s@, suffix@, from as int));
    r
}

/// `s` without `prefix`, if it begins with it.
pub open spec fn strip_prefix(s: Seq<char>, prefix: Seq<char>) -> Option<Seq<char>> {
    if prefix.is_prefix_of(s) {
        Some(s.skip(prefix.len() as int))
    } else {
        None
    }
}

/// `s` without `prefix`, if it begins with it.
pub(crate) fn without_prefix(s: &str, prefix: &str) -> (r: Option<String>)
    ensures
        opt_string(r) == strip_prefix(s@, prefix@),
{
    let v = chars_of(s);
    let p = chars_of(prefix);
    if starts_at(v.as_slice(), p.as_slice(), 0) {
        Some(string_range(v.as_slice(), p.len(), v.len()))
    } else {
        None
    }
}

/// Whether `pat` stands in `s` at index `i`.
pub open spec fn occurs_at(s: Seq<char>, pat: Seq<char>, i: int) -> bool {
    0 <= i && i + pat.len() <= s.len() && s.subrange(i, i + pat.len()) == pat
}

/// Whether `pat` stands in `s` at index `i` and at no smaller one.
pub open spec fn occurs_first(s: Seq<char>, pat: Seq<char>, i: int) -> bool {
    occurs_at(s, pat, i) && forall|j: int| 0 <= j < i ==> !#[trigger] occurs_at(s, pat, j)
}

/// Whether `pat` stands somewhere in `s`.
pub open spec fn occurs(s: Seq<char>, pat: Seq<char>) -> bool {
    exists|i: int| #[trigger] occurs_at(s, pat, i)
}

/// Whether `p` stands in `v` at index `i`.
pub(crate) fn starts_at(v: &[char], p: &[char], i: usize) -> (r: bool)
    requires
        i <= v@.len(),
    ensures
        r == occurs_at(v@, p@, i as int),
        i == 0 ==> r == p@.is_prefix_of(v@),
{
    let n: usize = v.len();
    if p.len() > n - i {
        return false;
    }
    let mut k: usize = 0;
    while k < p.len()
        invariant
            k <= p@.len(),
            i + p@.len() <= v@.len(),
            n == v@.len(),
            forall|j: int| 0 <= j < k ==> v@[i + j] == p@[j],
        decreases p@.len() - k,
    {
        if v[i + k] != p[k] {
            assert(v@.subrange(i as int, i + p@.len())[k as int] != p@[k as int]);
            return false;
        }
        k += 1;
    }
    assert(v@.subrange(i as int, i + p@.len()) =~= p@);
    true
}

/// Whether `pat` stands somewhere in `s`.
pub(crate) fn contains(s: &str, pat: &str) -> (r: bool)
    ensures
        r == occurs(s@, pat@),
{
    let v = chars_of(s);
    let p = chars_of(pat);
    if p.len() > v.len() {
        return false;
    }
    let last: usize = v.len() - p.len();
    let mut i: usize = 0;
    while i < last
        invariant
            i <= last,
            last + p@.len() == v@.len(),
            v@ == s@,
            p@ == pat@,
            forall|j: int| 0 <= j < i ==> !#[trigger] occurs_at(s@, pat@, j),
        decreases last - i,
    {
        if starts_at(v.as_slice(), p.as_slice(), i) {
            return true;
        }
        i += 1;
    }
    starts_at(v.as_slice(), p.as_slice(), last)
}

/// Whether `c` stands in `s` at index `i` and at no smaller one.
pub open spec fn char_first(s: Seq<char>, c: char, i: int) -> bool {
    0 <= i < s.len() && s[i] == c && forall|j: int| 0 <= j < i ==> s[j] != c
}

/// Where `c` first stands in `s`.
pub open spec fn find_char(s: Seq<char>, c: char) -> Option<int> {
    if s.contains(c) {
        Some(choose|i: int| char_first(s, c, i))
    } else {
        None
    }
}

pub(crate) proof fn lemma_find_char(s: Seq<char>, c: char, i: int)
    requires
        char_first(s, c, i),
    ensures
        find_char(s, c) == Some(i),
{
    assert(s[i] == c);
    let k = choose|k: int| char_first(s, c, k);
    assert(char_first(s, c, k));
    assert(k == i);
}

/// Where `c` first stands in `v`.
pub(crate) fn find_in(v: &[char], c: char) -> (r: Option<usize>)
    ensures
        match r {
            Some(i) => i < v@.len() && find_char(v@, c) == Some(i as int) && char_first(v@, c, i as int),
            None => find_char(v@, c) is None && !v@.contains(c),
        },
{
    let mut i: usize = 0;
    while i < v.len()
        invariant
            i <= v@.len(),
            forall|j: int| 0 <= j < i ==> v@[j] != c,
        decreases v@.len() - i,
    {
        if v[i] == c {
            proof {
                lemma_find_char(v@, c, i as int);
            }
            return Some(i);
        }
        i += 1;
    }
    None
}

/// The characters with Unicode's `White_Space` property.
pub open spec fn is_white_space(c: char) -> bool {
    let u = c as u32;
    ||| 0x9 <= u <= 0xd
    ||| u == 0x20
    ||| u == 0x85
    ||| u == 0xa0
    ||| u == 0x1680
    ||| 0x2000 <= u <= 0x200a
    ||| u == 0x2028
    ||| u == 0x2029
    ||| u == 0x202f
    ||| u == 0x205f
    ||| u == 0x3000
}

/// Whether a character has Unicode's `White_Space` property.
pub(crate) fn white_space(c: char) -> (r: bool)
    ensures
        r == is_white_space(c),
{
    let u: u32 = c as u32;
    (0x9 <= u && u <= 0xd) || u == 0x20 || u == 0x85 || u == 0xa0 || u == 0x1680 || (0x2000 <= u
        && u <= 0x200a) || u == 0x2028 || u == 0x2029 || u == 0x202f || u == 0x205f || u == 0x3000
}

/// `s` without the white space that it begins with.
pub open spec fn trim_start(s: Seq<char>) -> Seq<char>
    decreases s.len(),
{
    if s.len() > 0 && is_white_space(s[0]) {
        trim_start(s.drop_first())
    } else {
        s
    }
}

/// `s` without the white space that it ends with.
pub open spec fn trim_end(s: Seq<char>) -> Seq<char>
    decreases s.len(),
{
    if s.len() > 0 && is_white_space(s.last()) {
        trim_end(s.drop_last())
    } else {
        s
    }
}

/// `s` without the white space around it.
pub open spec fn trimmed(s: Seq<char>) -> Seq<char> {
    trim_end(trim_start(s))
}

/// A text without the white space around it.
pub(crate) fn trim(s: &str) -> (r: String)
    ensures
        r@ == trimmed(s@),
{
    let v = chars_of(s);
    let mut a: usize = 0;
    assert(v@.subrange(0, v@.len() as int) =~= v@);
    while a < v.len() && white_space(v[a])
        invariant
            a <= v@.len(),
            trim_start(v@) == trim_start(v@.subrange(a as int, v@.len() as int)),
        decreases v@.len() - a,
    {
        assert(v@.subrange(a as int, v@.len() as int).drop_first() =~= v@.subrange(
            a + 1,
            v@.len() as int,
        ));
        a += 1;
    }
    let ghost t = v@.subrange(a as int, v@.len() as int);
    assert(trim_start(v@) == t);
    let mut b: usize = v.len();
    assert(t =~= v@.subrange(a as int, b as int));
    while b > a && white_space(v[b - 1])
        invariant
            a <= b <= v@.len(),
            trim_end(t) == trim_end(v@.subrange(a as int, b as int)),
        decreases b,
    {
        assert(v@.subrange(a as int, b as int).drop_last() =~= v@.subrange(a as int, b - 1));
        b -= 1;
    }
    string_range(v.as_slice(), a, b)
}

/// `s` without the characters `c` that it begins with.
pub open spec fn trim_char_start(s: Seq<char>, c: char) -> Seq<char>
    decreases s.len(),
{
    if s.len() > 0 && s[0] == c {
        trim_char_start(s.drop_first(), c)
    } else {
        s
    }
}

/// `s` without the characters `c` that it ends with.
pub open spec fn trim_char_end(s: Seq<char>, c: char) -> Seq<char>
    decreases s.len(),
{
    if s.len() > 0 && s.last() == c {
        trim_char_end(s.drop_last(), c)
    } else {
        s
    }
}

/// `s` without the characters `c` around it.
pub open spec fn trimmed_of(s: Seq<char>, c: char) -> Seq<char> {
    trim_char_end(trim_char_start(s, c), c)
}

/// The characters from `from` up to `to`, without the characters `c` around them.
pub(crate) fn trim_of(v: &[char], from: usize, to: usize, c: char) -> (r: String)
    requires
        from <= to <= v@.len(),
    ensures
        r@ == trimmed_of(v@.subrange(from as int, to as int), c),
{
    let ghost s = v@.subrange(from as int, to as int);
    let mut a: usize = from;
    while a < to && v[a] == c
        invariant
            from <= a <= to <= v@.len(),
            trim_char_start(s, c) == trim_char_start(v@.subrange(a as int, to as int), c),
        decreases to - a,
    {
        assert(v@.subrange(a as int, to as int).drop_first() =~= v@.subrange(a + 1, to as int));
        a += 1;
    }
    let ghost t = v@.subrange(a as int, to as int);
    let mut b: usize = to;
    while b > a && v[b - 1] == c
        invariant
            from <= a <= b <= to <= v@.len(),
            trim_char_end(t, c) == trim_char_end(v@.subrange(a as int, b as int), c),
        decreases b,
    {
        assert(v@.subrange(a as int, b as int).drop_last() =~= v@.subrange(a as int, b - 1));
        b -= 1;
    }
    string_range(v, a, b)
}

/// The pieces of `s` between the characters `c` and `d`; there is always at least one.
pub open spec fn split_either(s: Seq<char>, c: char, d: char) -> Seq<Seq<char>>
    decreases s.len(),
{
    if s.len() == 0 {
        seq![s]
    } else {
        let before = split_either(s.drop_last(), c, d);
        if s.last() == c || s.last() == d {
            before.push(Seq::empty())
        } else {
            before.drop_last().push(before.last().push(s.last()))
        }
    }
}

/// The pieces of `s` between the characters `c`; there is always at least one.
pub open spec fn split(s: Seq<char>, c: char) -> Seq<Seq<char>> {
    split_either(s, c, c)
}

pub(crate) proof fn lemma_split_nonempty(s: Seq<char>, c: char, d: char)
    ensures
        split_either(s, c, d).len() >= 1,
    decreases s.len(),
{
    if s.len() > 0 {
        lemma_split_nonempty(s.drop_last(), c, d);
    }
}

pub(crate) proof fn lemma_split_none(s: Seq<char>, c: char)
    requires
        !s.contains(c),
    ensures
        split(s, c) == seq![s],
{
    text_without_separators_is_one_piece(s, c, c);
}

pub(crate) proof fn lemma_split_at(a: Seq<char>, b: Seq<char>, c: char)
    ensures
        split(a + seq![c] + b, c) == split(a, c) + split(b, c),
{
    separator_parts_pieces(a, c, b, c, c);
}

/// The pieces of a text between the characters `c` and `d`.
pub(crate) fn split_text_either(s: &str, c: char, d: char) -> (r: Vec<String>)
    ensures
        views(r@) == split_either(s@, c, d),
        r@.len() >= 1,
{
    let v = chars_of(s);
    let mut out: Vec<String> = Vec::new();
    let mut cur = String::new();
    let mut i: usize = 0;
    assert(v@.take(0) =~= Seq::empty());
    assert(views(out@).push(cur@) =~= seq![v@.take(0)]);
    while i < v.len()
        invariant
            i <= v@.len(),
            v@ == s@,
            views(out@).push(cur@) == split_either(v@.take(i as int), c, d),
        decreases v@.len() - i,
    {
        let ghost before = views(out@).push(cur@);
        assert(v@.take(i + 1).drop_last() =~= v@.take(i as int));
        if v[i] == c || v[i] == d {
            out.push(cur);
            cur = String::new();
            assert(views(out@) =~= before);
        } else {
            cur.push(v[i]);
            assert(before.drop_last() =~= views(out@));
        }
        i += 1;
    }
    assert(v@.take(v@.len() as int) =~= v@);
    let ghost done = views(out@).push(cur@);
    out.push(cur);
    assert(views(out@) =~= done);
    out
}

/// The pieces of a text between the characters `c`.
pub(crate) fn split_text(s: &str, c: char) -> (r: Vec<String>)
    ensures
        views(r@) == split(s@, c),
        r@.len() >= 1,
{
    split_text_either(s, c, c)
}

/// A line without the carriage return that it ends with.
pub open spec fn strip_cr(s: Seq<char>) -> Seq<char> {
    if s.len() > 0 && s.last() == '\r' {
        s.drop_last()
    } else {
        s
    }
}

/// The lines of `s`. A line ends with a line feed, or with a carriage return and a
/// line feed; the last line may end with the text.
pub open spec fn lines(s: Seq<char>) -> Seq<Seq<char>> {
    let pieces = split(s, '\n');
    let ended = pieces.drop_last().map_values(|l: Seq<char>| strip_cr(l));
    if pieces.last().len() == 0 {
        ended
    } else {
        ended.push(pieces.last())
    }
}

/// The lines of a text.
pub(crate) fn lines_of(s: &str) -> (r: Vec<String>)
    ensures
        views(r@) == lines(s@),
{
    let pieces = split_text(s, '\n');
    let last: usize = pieces.len() - 1;
    let ghost ended = views(pieces@).drop_last().map_values(|l: Seq<char>| strip_cr(l));
    let mut out: Vec<String> = Vec::new();
    let mut i: usize = 0;
    while i < last
        invariant
            i <= last,
            last == pieces@.len() - 1,
            ended == views(pieces@).drop_last().map_values(|l: Seq<char>| strip_cr(l)),
            views(out@) == ended.take(i as int),
        decreases last - i,
    {
        let ghost before = views(out@);
        let line = chars_of(pieces[i].as_str());
        assert(line@ == views(pieces@)[i as int]);
        let stripped = if line.len() > 0 && line[line.len() - 1] == '\r' {
            string_range(line.as_slice(), 0, line.len() - 1)
        } else {
            string_of(line.as_slice())
        };
        assert(stripped@ =~= strip_cr(line@));
        out.push(stripped);
        assert(views(out@) =~= before.push(ended[i as int]));
        assert(ended.take(i + 1) =~= ended.take(i as int).push(ended[i as int]));
        i += 1;
    }
    assert(ended.take(last as int) =~= ended);
    if !pieces[last].as_str().is_empty() {
        let ghost before = views(out@);
        out.push(pieces[last].clone());
        assert(views(out@) =~= before.push(pieces@[last as int]@));
    }
    assert(views(pieces@).last() == pieces@[last as int]@);
    out
}

/// `s` with each occurrence of `from` replaced by `to`, left to right and without overlap.
pub open spec fn replace(s: Seq<char>, from: Seq<char>, to: Seq<char>) -> Seq<char>
    decreases s.len(),
{
    if s.len() == 0 || from.len() == 0 {
        s
    } else if from.is_prefix_of(s) {
        to + replace(s.skip(from.len() as int), from, to)
    } else {
        seq![s[0]] + replace(s.skip(1), from, to)
    }
}

/// A text with each occurrence of `from` replaced by `to`.
pub(crate) fn replaced(s: &str, from: &str, to: &str) -> (r: String)
    requires
        from@.len() > 0,
    ensures
        r@ == replace(s@, from@, to@),
{
    let v = chars_of(s);
    let f = chars_of(from);
    let mut out = String::new();
    let mut i: usize = 0;
    assert(v@.skip(0) =~= v@);
    while i < v.len()
        invariant
            i <= v@.len(),
            v@ == s@,
            f@ == from@,
            f@.len() > 0,
            out@ + replace(v@.skip(i as int), from@, to@) == replace(s@, from@, to@),
        decreases v@.len() - i,
    {
        let ghost before = out@;
        let ghost rest = v@.skip(i as int);
        if starts_at(v.as_slice(), f.as_slice(), i) {
            assert(rest.subrange(0, f@.len() as int) =~= v@.subrange(i as int, i + f@.len()));
            assert(from@.is_prefix_of(rest));
            out.append(to);
            assert(rest.skip(f@.len() as int) =~= v@.skip(i + f@.len()));
            i += f.len();
            assert(before + (to@ + replace(v@.skip(i as int), from@, to@)) =~= out@ + replace(
                v@.skip(i as int),
                from@,
                to@,
            ));
        } else {
            assert(!from@.is_prefix_of(rest)) by {
                if from@.is_prefix_of(rest) {
                    assert(rest.subrange(0, f@.len() as int) =~= v@.subrange(
                        i as int,
                        i + f@.len(),
                    ));
                }
            }
            out.push(v[i]);
            assert(rest.skip(1) =~= v@.skip(i + 1));
            i += 1;
            assert(before + (seq![rest[0]] + replace(v@.skip(i as int), from@, to@)) =~= out@
                + replace(v@.skip(i as int), from@, to@));
        }
    }
    assert(v@.skip(v@.len() as int).len() == 0);
    assert(out@ + v@.skip(v@.len() as int) =~= out@);
    out
}

/// The texts of a list, with `sep` between each two.
pub open spec fn join(list: Seq<Seq<char>>, sep: Seq<char>) -> Seq<char>
    decreases list.len(),
{
    if list.len() == 0 {
        Seq::empty()
    } else if list.len() == 1 {
        list[0]
    } else {
        join(list.drop_last(), sep) + sep + list.last()
    }
}

/// The texts of a list, with `sep` between each two.
pub(crate) fn join_texts(list: &Vec<String>, sep: &str) -> (r: String)
    ensures
        r@ == join(views(list@), sep@),
{
    let mut out = String::new();
    let mut i: usize = 0;
    let ghost all = views(list@);
    while i < list.len()
        invariant
            i <= list@.len(),
            all == views(list@),
            out@ == join(all.take(i as int), sep@),
        decreases list@.len() - i,
    {
        assert(all.take(i + 1).drop_last() =~= all.take(i as int));
        if i > 0 {
            out.append(sep);
        }
        out.append(list[i].as_str());
        i += 1;
        if i == 1 {
            assert(out@ =~= all[0]);
        }
    }
    assert(all.take(all.len() as int) =~= all);
    out
}

/// A text without the separators is one piece.
pub proof fn text_without_separators_is_one_piece(s: Seq<char>, c: char, d: char)
    requires
        !s.contains(c),
        !s.contains(d),
    ensures
        split_either(s, c, d) == seq![s],
    decreases s.len(),
{
    if s.len() > 0 {
        let rest = s.drop_last();
        assert(s.contains(s.last()));
        assert forall|x: char| rest.contains(x) implies s.contains(x) by {
            let k = choose|k: int| 0 <= k < rest.len() && rest[k] == x;
            assert(s[k] == x);
        }
        text_without_separators_is_one_piece(rest, c, d);
        assert(rest.push(s.last()) =~= s);
        assert(seq![rest].drop_last().push(s) =~= seq![s]);
    }
}

/// A separator parts the pieces before it from those after it.
pub proof fn separator_parts_pieces(a: Seq<char>, x: char, b: Seq<char>, c: char, d: char)
    requires
        x == c || x == d,
    ensures
        split_either(a + seq![x] + b, c, d) == split_either(a, c, d) + split_either(b, c, d),
    decreases b.len(),
{
    let head = a + seq![x];
    assert(head.drop_last() =~= a);
    if b.len() == 0 {
        assert(head + b =~= head);
        assert(b =~= Seq::empty());
        assert(split_either(head, c, d) =~= split_either(a, c, d) + split_either(b, c, d));
    } else {
        let rest = b.drop_last();
        separator_parts_pieces(a, x, rest, c, d);
        lemma_split_nonempty(rest, c, d);
        assert((head + b).drop_last() =~= head + rest);
        let all = split_either(a, c, d) + split_either(rest, c, d);
        assert(all.drop_last() =~= split_either(a, c, d) + split_either(rest, c, d).drop_last());
        assert(all.last() == split_either(rest, c, d).last());
        assert(split_either(head + b, c, d) =~= split_either(a, c, d) + split_either(b, c, d));
    }
}

/// The pieces with the separator put back between them are the text, and none of them holds
/// the separator.
pub proof fn pieces_join_to_the_text(s: Seq<char>, c: char)
    ensures
        join(split(s, c), seq![c]) == s,
        forall|i: int| 0 <= i < split(s, c).len() ==> !(#[trigger] split(s, c)[i]).contains(c),
    decreases s.len(),
{
    let sep = seq![c];
    if s.len() == 0 {
        assert(split(s, c) =~= seq![s]);
    } else {
        let rest = s.drop_last();
        let before = split(rest, c);
        pieces_join_to_the_text(rest, c);
        lemma_split_nonempty(rest, c, c);
        if s.last() == c {
            assert(before.push(Seq::empty()).drop_last() =~= before);
            assert(join(before, sep) + sep + Seq::<char>::empty() =~= s);
        } else {
            let head = before.drop_last();
            let last = before.last();
            let longer = head.push(last.push(s.last()));
            assert(head.push(last) =~= before);
            assert(longer.drop_last() =~= head);
            assert(before[before.len() - 1] == last);
            if head.len() == 0 {
                assert(join(longer, sep) =~= rest.push(s.last()));
            } else {
                assert(join(head, sep) + sep + last.push(s.last()) =~= rest.push(s.last()));
            }
            assert(rest.push(s.last()) =~= s);
            assert forall|i: int| 0 <= i < longer.len() implies !(#[trigger] longer[i]).contains(
                c,
            ) by {
                if i < head.len() {
                    assert(longer[i] == before[i]);
                } else if longer[i].contains(c) {
                    let k = choose|k: int| 0 <= k < longer[i].len() && longer[i][k] == c;
                    assert(last[k] == c);
                    assert(last.contains(c));
                }
            }
        }
    }
}

/// Lists that are joined one after the other have the separator between them.
pub proof fn joined_lists_are_joined(a: Seq<Seq<char>>, b: Seq<Seq<char>>, sep: Seq<char>)
    requires
        a.len() > 0,
        b.len() > 0,
    ensures
        join(a + b, sep) == join(a, sep) + sep + join(b, sep),
        join(seq![a[0]], sep) == a[0],
    decreases b.len(),
{
    let rest = b.drop_last();
    assert((a + b).drop_last() =~= a + rest);
    assert((a + b).last() == b.last());
    if rest.len() == 0 {
        assert(a + rest =~= a);
        assert(b =~= seq![b[0]]);
    } else {
        joined_lists_are_joined(a, rest, sep);
        assert(join(a, sep) + sep + join(rest, sep) + sep + b.last() =~= join(a, sep) + sep + (join(
            rest,
            sep,
        ) + sep + b.last()));
    }
}

/// The white space of ASCII: the space, the tabs, the line feed, the form feed and the
/// carriage return.
pub proof fn ascii_white_space(c: char)
    requires
        (c as u32) < 0x80,
    ensures
        is_white_space(c) <==> c == ' ' || c == '\t' || c == '\n' || c == '\u{b}' || c == '\u{c}' || c
            == '\r',
{
}

/// What is trimmed is the white space around a text, all of it and nothing else.
pub proof fn trimming_takes_the_white_space_around(s: Seq<char>)
    ensures
        exists|i: int, j: int| #[trigger] trimmed_between(s, i, j),
{
    lemma_trim_start(s);
    let t = trim_start(s);
    lemma_trim_end(t);
    let i = s.len() - t.len();
    let j = i + trim_end(t).len();
    assert(trimmed(s) =~= s.subrange(i, j));
    assert forall|k: int| j <= k < s.len() implies is_white_space(#[trigger] s[k]) by {
        assert(t[k - i] == s[k]);
    }
    assert(trimmed_between(s, i, j));
}

/// Whether trimming leaves the characters from `i` up to `j`: there is white space before and
/// after them, and they neither begin nor end with any.
pub open spec fn trimmed_between(s: Seq<char>, i: int, j: int) -> bool {
    &&& 0 <= i <= j <= s.len()
    &&& trimmed(s) == s.subrange(i, j)
    &&& forall|k: int| 0 <= k < i ==> is_white_space(#[trigger] s[k])
    &&& forall|k: int| j <= k < s.len() ==> is_white_space(#[trigger] s[k])
    &&& i < j ==> !is_white_space(s[i]) && !is_white_space(s[j - 1])
}

proof fn lemma_trim_start(s: Seq<char>)
    ensures
        trim_start(s).len() <= s.len(),
        trim_start(s) == s.skip(s.len() - trim_start(s).len()),
        forall|k: int| 0 <= k < s.len() - trim_start(s).len() ==> is_white_space(#[trigger] s[k]),
        trim_start(s).len() > 0 ==> !is_white_space(trim_start(s)[0]),
    decreases s.len(),
{
    if s.len() > 0 && is_white_space(s[0]) {
        let rest = s.drop_first();
        lemma_trim_start(rest);
        let n = s.len() - trim_start(s).len();
        assert(rest.skip(n - 1) =~= s.skip(n));
        assert forall|k: int| 0 <= k < n implies is_white_space(#[trigger] s[k]) by {
            if k > 0 {
                assert(rest[k - 1] == s[k]);
            }
        }
    } else {
        assert(s.skip(0) =~= s);
    }
}

proof fn lemma_trim_end(s: Seq<char>)
    ensures
        trim_end(s).len() <= s.len(),
        trim_end(s) == s.take(trim_end(s).len() as int),
        forall|k: int| trim_end(s).len() <= k < s.len() ==> is_white_space(#[trigger] s[k]),
        trim_end(s).len() > 0 ==> !is_white_space(trim_end(s).last()),
    decreases s.len(),
{
    if s.len() > 0 && is_white_space(s.last()) {
        let rest = s.drop_last();
        lemma_trim_end(rest);
        let n = trim_end(s).len() as int;
        assert(rest.take(n) =~= s.take(n));
        assert forall|k: int| n <= k < s.len() implies is_white_space(#[trigger] s[k]) by {
            if k < rest.len() {
                assert(rest[k] == s[k]);
            }
        }
    } else {
        assert(s.take(s.len() as int) =~= s);
    }
}

/// A text that neither begins nor ends with a character comes back from between any number
/// of that character.
pub proof fn surrounding_characters_are_trimmed(before: nat, s: Seq<char>, after: nat, c: char)
    requires
        s.len() > 0 ==> s[0] != c && s.last() != c,
    ensures
        trimmed_of(Seq::new(before, |i: int| c) + s + Seq::new(after, |i: int| c), c) == s,
    decreases before + after,
{
    let whole = Seq::new(before, |i: int| c) + s + Seq::new(after, |i: int| c);
    if before > 0 {
        let fewer = (before - 1) as nat;
        surrounding_characters_are_trimmed(fewer, s, after, c);
        assert(whole.drop_first() =~= Seq::new(fewer, |i: int| c) + s + Seq::new(after, |i: int| c));
        assert(whole[0] == c);
    } else if s.len() == 0 {
        assert(whole =~= Seq::new(after, |i: int| c));
        lemma_trim_all(after, c);
        assert(s =~= Seq::empty());
    } else {
        assert(whole[0] == s[0]);
        assert(trim_char_start(whole, c) == whole);
        assert(whole =~= s + Seq::new(after, |i: int| c));
        lemma_trim_char_end(s, after, c);
    }
}

proof fn lemma_trim_char_end(s: Seq<char>, after: nat, c: char)
    requires
        s.len() > 0,
        s.last() != c,
    ensures
        trim_char_end(s + Seq::new(after, |i: int| c), c) == s,
    decreases after,
{
    let whole = s + Seq::new(after, |i: int| c);
    if after > 0 {
        let fewer = (after - 1) as nat;
        lemma_trim_char_end(s, fewer, c);
        assert(whole.drop_last() =~= s + Seq::new(fewer, |i: int| c));
        assert(whole.last() == c);
    } else {
        assert(whole =~= s);
    }
}

proof fn lemma_trim_all(n: nat, c: char)
    ensures
        trim_char_start(Seq::new(n, |i: int| c), c) == Seq::<char>::empty(),
    decreases n,
{
    let whole = Seq::new(n, |i: int| c);
    if n > 0 {
        lemma_trim_all((n - 1) as nat, c);
        assert(whole.drop_first() =~= Seq::new((n - 1) as nat, |i: int| c));
    } else {
        assert(whole =~= Seq::empty());
    }
}

/// A text is read line by line: a line, with its end, is followed by the lines of the rest.
/// A line feed ends a line, and a carriage return right before it belongs to the end.
pub proof fn text_is_read_line_by_line(line: Seq<char>, rest: Seq<char>)
    requires
        !line.contains('\n'),
    ensures
        !(line.len() > 0 && line.last() == '\r') ==> lines(line + seq!['\n'] + rest) == seq![line]
            + lines(rest),
        lines(line + seq!['\r', '\n'] + rest) == seq![line] + lines(rest),
        lines(line) == (if line.len() > 0 {
            seq![line]
        } else {
            Seq::empty()
        }),
{
    lemma_first_line(line, rest);
    let long = line.push('\r');
    assert(!long.contains('\n')) by {
        if long.contains('\n') {
            let k = choose|k: int| 0 <= k < long.len() && long[k] == '\n';
            assert(line[k] == '\n');
        }
    }
    lemma_first_line(long, rest);
    assert(long + seq!['\n'] + rest =~= line + seq!['\r', '\n'] + rest);
    assert(long.drop_last() =~= line);
    text_without_separators_is_one_piece(line, '\n', '\n');
    let f = |l: Seq<char>| strip_cr(l);
    assert(seq![line].drop_last().map_values(f) =~= Seq::empty());
    assert(Seq::<Seq<char>>::empty().push(line) =~= seq![line]);
}

proof fn lemma_first_line(line: Seq<char>, rest: Seq<char>)
    requires
        !line.contains('\n'),
    ensures
        lines(line + seq!['\n'] + rest) == seq![strip_cr(line)] + lines(rest),
{
    let f = |l: Seq<char>| strip_cr(l);
    let s = line + seq!['\n'] + rest;
    separator_parts_pieces(line, '\n', rest, '\n', '\n');
    text_without_separators_is_one_piece(line, '\n', '\n');
    lemma_split_nonempty(rest, '\n', '\n');
    let tail = split(rest, '\n');
    let all = split(s, '\n');
    assert(all =~= seq![line] + tail);
    assert(all.drop_last() =~= seq![line] + tail.drop_last());
    assert(all.last() == tail.last());
    assert(all.drop_last().map_values(f) =~= seq![strip_cr(line)] + tail.drop_last().map_values(f));
    assert(lines(s) =~= seq![strip_cr(line)] + lines(rest));
}

/// A text in which `from` does not stand is not changed.
pub proof fn nothing_is_replaced(s: Seq<char>, from: Seq<char>, to: Seq<char>)
    requires
        !occurs(s, from),
    ensures
        replace(s, from, to) == s,
    decreases s.len(),
{
    if s.len() > 0 && from.len() > 0 {
        let rest = s.skip(1);
        if occurs(rest, from) {
            let i = choose|i: int| occurs_at(rest, from, i);
            assert(rest.subrange(i, i + from.len()) =~= s.subrange(i + 1, i + 1 + from.len()));
            assert(occurs_at(s, from, i + 1));
        }
        nothing_is_replaced(rest, from, to);
        if from.is_prefix_of(s) {
            assert(occurs_at(s, from, 0));
        }
        assert(seq![s[0]] + rest =~= s);
    }
}

/// The first place where `from` stands is replaced, what is before it stays, and what is
/// after it is replaced in the same way.
pub proof fn first_occurrence_is_replaced(
    before: Seq<char>,
    from: Seq<char>,
    after: Seq<char>,
    to: Seq<char>,
)
    requires
        from.len() > 0,
        occurs_first(before + from + after, from, before.len() as int),
    ensures
        replace(before + from + after, from, to) == before + to + replace(after, from, to),
    decreases before.len(),
{
    let s = before + from + after;
    if before.len() == 0 {
        assert(s.subrange(0, from.len() as int) =~= from);
        assert(s.skip(from.len() as int) =~= after);
        assert(before + to =~= to);
    } else {
        let rest = before.skip(1);
        let shorter = rest + from + after;
        assert(s.skip(1) =~= shorter);
        if from.is_prefix_of(s) {
            assert(occurs_at(s, from, 0));
        }
        let at = rest.len() as int;
        assert(shorter.subrange(at, at + from.len()) =~= from);
        assert forall|j: int| 0 <= j < rest.len() implies !#[trigger] occurs_at(shorter, from, j) by {
            if occurs_at(shorter, from, j) {
                assert(shorter.subrange(j, j + from.len()) =~= s.subrange(j + 1, j + 1 + from.len()));
                assert(occurs_at(s, from, j + 1));
            }
        }
        first_occurrence_is_replaced(rest, from, after, to);
        assert(seq![s[0]] + (rest + to + replace(after, from, to)) =~= before + to + replace(
            after,
            from,
            to,
        ));
    }
}

/// To replace one character by another keeps the length, and changes that character alone,
/// wherever it stands.
pub proof fn one_character_is_replaced(s: Seq<char>, c: char, d: char)
    ensures
        replace(s, seq![c], seq![d]).len() == s.len(),
        forall|i: int|
            0 <= i < s.len() ==> #[trigger] replace(s, seq![c], seq![d])[i] == (if s[i] == c {
                d
            } else {
                s[i]
            }),
    decreases s.len(),
{
    if s.len() > 0 {
        let rest = s.skip(1);
        one_character_is_replaced(rest, c, d);
        assert(s.subrange(0, 1) =~= seq![s[0]]);
        assert(seq![c].is_prefix_of(s) == (s[0] == c)) by {
            if s[0] != c {
                assert(s.subrange(0, 1)[0] != seq![c][0]);
            }
        }
        let r = replace(s, seq![c], seq![d]);
        assert(r =~= seq![if s[0] == c {
            d
        } else {
            s[0]
        }] + replace(rest, seq![c], seq![d]));
        assert forall|i: int| 0 <= i < s.len() implies #[trigger] r[i] == (if s[i] == c {
            d
        } else {
            s[i]
        }) by {
            if i > 0 {
                assert(r[i] == replace(rest, seq![c], seq![d])[i - 1]);
                assert(rest[i - 1] == s[i]);
            }
        }
    }
}

/// The place that is found is the first one where the character stands, and one is found
/// wherever the character stands at all.
pub proof fn first_place_is_found(before: Seq<char>, c: char, after: Seq<char>)
    requires
        !before.contains(c),
    ensures
        find_char(before + seq![c] + after, c) == Some(before.len() as int),
        find_char(before, c) is None,
{
    let s = before + seq![c] + after;
    let i = before.len() as int;
    assert(s[i] == c);
    assert forall|j: int| 0 <= j < i implies s[j] != c by {
        assert(before[j] == s[j]);
    }
    assert(char_first(s, c, i));
    lemma_find_char(s, c, i);
}

/// A text stands wherever it was put.
pub proof fn text_stands_where_it_was_put(before: Seq<char>, pat: Seq<char>, after: Seq<char>)
    ensures
        occurs_at(before + pat + after, pat, before.len() as int),
        occurs(before + pat + after, pat),
        pat.is_prefix_of(pat + after),
        strip_prefix(pat + after, pat) == Some(after),
{
    let s = before + pat + after;
    let i = before.len() as int;
    assert(s.subrange(i, i + pat.len()) =~= pat);
    assert(occurs_at(s, pat, i));
    assert((pat + after).subrange(0, pat.len() as int) =~= pat);
    assert((pat + after).skip(pat.len() as int) =~= after);
}

/// The white space beyond ASCII: the next line, the spaces of other widths, and the separators
/// of lines and paragraphs.
pub proof fn other_white_space(c: char)
    requires
        c as u32 >= 0x80,
    ensures
        is_white_space(c) <==> c == '\u{85}' || c == '\u{a0}' || c == '\u{1680}' || '\u{2000}' <= c
            <= '\u{200a}' || c == '\u{2028}' || c == '\u{2029}' || c == '\u{202f}' || c == '\u{205f}'
            || c == '\u{3000}',
{
}

} // verus!
