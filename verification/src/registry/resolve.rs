//! Paths that begin with a registry key in brackets, such as `[KEY\Install Dir]\game.exe`.

use vstd::prelude::*;
use crate::path;
use crate::path::{styled_join, PathStyle};
use crate::text;
use crate::text::{replaced, split_text_either, without_prefix};

verus! {

/// Whether a piece between brackets counts.
pub open spec fn is_key_part(s: Seq<char>) -> bool {
    s.len() > 0
}

/// The pieces of a text between brackets, without the empty ones.
pub open spec fn key_parts(key: Seq<char>) -> Seq<Seq<char>> {
    text::split_either(key, '[', ']').filter(|s: Seq<char>| is_key_part(s))
}

/// A path that was resolved.
pub struct ResolvedPath {
    pub path: String,
    /// Whether the file system has to be asked how it spells the path.
    pub any_case: bool,
}

fn key_parts_of(key: &str) -> (r: Vec<String>)
    ensures
        text::views(r@) == key_parts(key@),
{
    let pieces = split_text_either(key, '[', ']');
    let ghost all = text::views(pieces@);
    let ghost keep = |s: Seq<char>| is_key_part(s);
    let mut out: Vec<String> = Vec::new();
    let mut i: usize = 0;
    assert(all.take(0) =~= Seq::empty());
    assert(text::views(out@) =~= Seq::<Seq<char>>::empty().filter(keep)) by {
        reveal(Seq::filter);
    }
    while i < pieces.len()
        invariant
            i <= pieces@.len(),
            all == text::views(pieces@),
            keep == (|s: Seq<char>| is_key_part(s)),
            text::views(out@) == all.take(i as int).filter(keep),
        decreases pieces@.len() - i,
    {
        let ghost before = text::views(out@);
        assert(pieces@[i as int]@ == all[i as int]);
        assert(all.take(i + 1).drop_last() =~= all.take(i as int));
        reveal(Seq::filter);
        if !pieces[i].as_str().is_empty() {
            out.push(pieces[i].clone());
            assert(text::views(out@) =~= before.push(all[i as int]));
        }
        i += 1;
    }
    assert(all.take(all.len() as int) =~= all);
    out
}

/// The registry key that a path begins with, if it has one.
pub open spec fn key_to_read(key: Seq<char>) -> Option<Seq<char>> {
    if key_parts(key).len() >= 2 {
        Some(key_parts(key)[0])
    } else {
        None
    }
}

/// The registry key whose value is needed to resolve a path, if any.
pub fn registry_key(key: &str) -> (r: Option<String>)
    ensures
        text::opt_string(r) == key_to_read(key@),
{
    let parts = key_parts_of(key);
    assert(key_parts(key@).len() == parts@.len());
    if parts.len() >= 2 {
        assert(key_parts(key@)[0] == parts@[0]@);
        Some(parts[0].clone())
    } else {
        None
    }
}

/// A text with slashes for backslashes.
pub open spec fn slashed(s: Seq<char>) -> Seq<char> {
    text::replace(s, "\\"@, "/"@)
}

fn slash(s: &str) -> (r: String)
    ensures
        r@ == slashed(s@),
{
    proof {
        reveal_strlit("\\");
    }
    replaced(s, "\\", "/")
}

/// The rest of a path, as a path below the value of its key.
pub open spec fn below(rest: Seq<char>) -> Seq<char> {
    match text::strip_prefix(slashed(rest), "/"@) {
        Some(r) => r,
        None => slashed(rest),
    }
}

/// The path that a text stands for, given the value of its key: the value, then the rest. A
/// key without a value leaves the text as it is.
pub open spec fn full_path(style: PathStyle, key: Seq<char>, value: Option<Seq<char>>) -> Seq<
    char,
> {
    match value {
        Some(v) if key_parts(key).len() >= 2 => path::join_in(
            style,
            text::replace(slashed(v), "//"@, "/"@),
            below(key_parts(key)[1]),
        ),
        _ => key,
    }
}

/// The path that a text stands for, given the value of the registry key that it begins with
/// (`None` where the key has none), on a system that writes its paths in this style.
pub fn parse_registry_path(style: PathStyle, key: &str, value: Option<&str>) -> (r: ResolvedPath)
    ensures
        r.path@ == full_path(style, key@, text::opt_str(value)),
        r.any_case == (key_to_read(key@) is None),
{
    let parts = key_parts_of(key);
    assert(key_parts(key@).len() == parts@.len());
    if parts.len() < 2 {
        return ResolvedPath { path: key.to_owned(), any_case: true };
    }
    assert(key_parts(key@)[1] == parts@[1]@);
    match value {
        Some(v) => {
            proof {
                reveal_strlit("//");
            }
            let base = slash(v);
            let base = replaced(base.as_str(), "//", "/");
            let rest = slash(parts[1].as_str());
            let rest = match without_prefix(rest.as_str(), "/") {
                Some(r) => r,
                None => rest,
            };
            ResolvedPath { path: styled_join(style, base.as_str(), rest.as_str()), any_case: false }
        },
        None => ResolvedPath { path: key.to_owned(), any_case: false },
    }
}

/// The path that the key of a text stands for, without the rest.
pub open spec fn partial_path(key: Seq<char>, value: Option<Seq<char>>) -> Seq<char> {
    match value {
        Some(v) if key_parts(key).len() >= 2 => slashed(v),
        _ => key,
    }
}

/// The path that the key of a text stands for, given its value (`None` where the key has
/// none).
pub fn parse_partial_registry_path(key: &str, value: Option<&str>) -> (r: ResolvedPath)
    ensures
        r.path@ == partial_path(key@, text::opt_str(value)),
        r.any_case == (key_to_read(key@) is None),
{
    let parts = key_parts_of(key);
    assert(key_parts(key@).len() == parts@.len());
    if parts.len() < 2 {
        return ResolvedPath { path: key.to_owned(), any_case: true };
    }
    match value {
        Some(v) => ResolvedPath { path: slash(v), any_case: false },
        None => ResolvedPath { path: key.to_owned(), any_case: false },
    }
}

/// A path with a key in brackets is read apart into the key and the rest.
pub proof fn bracketed_key_is_read(key: Seq<char>, rest: Seq<char>)
    requires
        key.len() > 0,
        rest.len() > 0,
        !key.contains('[') && !key.contains(']'),
        !rest.contains('[') && !rest.contains(']'),
    ensures
        key_parts(seq!['['] + key + seq![']'] + rest) == seq![key, rest],
        key_to_read(seq!['['] + key + seq![']'] + rest) == Some(key),
{
    let none = Seq::<char>::empty();
    let keep = |s: Seq<char>| is_key_part(s);
    text::separator_parts_pieces(none, '[', key + seq![']'] + rest, '[', ']');
    text::separator_parts_pieces(key, ']', rest, '[', ']');
    text::text_without_separators_is_one_piece(none, '[', ']');
    text::text_without_separators_is_one_piece(key, '[', ']');
    text::text_without_separators_is_one_piece(rest, '[', ']');
    let s = seq!['['] + key + seq![']'] + rest;
    assert(none + seq!['['] + (key + seq![']'] + rest) =~= s);
    let pieces = text::split_either(s, '[', ']');
    assert(pieces =~= seq![none, key, rest]);
    reveal_with_fuel(Seq::filter, 4);
    assert(pieces.drop_last() =~= seq![none, key]);
    assert(seq![none, key].drop_last() =~= seq![none]);
    assert(seq![none].drop_last() =~= Seq::empty());
    assert(pieces.filter(keep) =~= seq![key, rest]);
}

/// A path without brackets names no key and stands for itself, whatever value is at hand.
pub proof fn plain_path_stands_for_itself(style: PathStyle, p: Seq<char>, value: Option<Seq<char>>)
    requires
        !p.contains('[') && !p.contains(']'),
    ensures
        key_to_read(p) is None,
        full_path(style, p, value) == p,
        partial_path(p, value) == p,
{
    let keep = |s: Seq<char>| is_key_part(s);
    text::text_without_separators_is_one_piece(p, '[', ']');
    reveal_with_fuel(Seq::filter, 2);
    assert(seq![p].drop_last() =~= Seq::empty());
}

/// The path of a key with a value is the value and the rest behind it, with slashes for
/// backslashes and one slash for two; the first slash of the rest does not count. Without a value
/// the text stays as it is.
pub proof fn value_takes_the_place_of_the_key(
    style: PathStyle,
    key: Seq<char>,
    rest: Seq<char>,
    value: Seq<char>,
)
    requires
        key.len() > 0,
        !key.contains('[') && !key.contains(']'),
        rest.len() > 0,
        !rest.contains('[') && !rest.contains(']') && !rest.contains('\\'),
        rest[0] != '/',
        !value.contains('\\'),
        !text::occurs(value, seq!['/', '/']),
    ensures
        ({
            let text = seq!['['] + key + seq![']', '\\'] + rest;
            &&& full_path(style, text, Some(value)) == path::join_in(style, value, rest)
            &&& partial_path(text, Some(value)) == value
            &&& full_path(style, text, None) == text
            &&& partial_path(text, None) == text
        }),
{
    let tail = seq!['\\'] + rest;
    let s = seq!['['] + key + seq![']', '\\'] + rest;
    assert(s =~= seq!['['] + key + seq![']'] + tail);
    assert(!tail.contains('[') && !tail.contains(']')) by {
        if tail.contains('[') {
            let k = choose|k: int| 0 <= k < tail.len() && tail[k] == '[';
            assert(rest[k - 1] == '[');
        }
        if tail.contains(']') {
            let k = choose|k: int| 0 <= k < tail.len() && tail[k] == ']';
            assert(rest[k - 1] == ']');
        }
    }
    bracketed_key_is_read(key, tail);
    reveal_strlit("\\");
    reveal_strlit("/");
    reveal_strlit("//");
    assert("\\"@ =~= seq!['\\']);
    assert("/"@ =~= seq!['/']);
    assert("//"@ =~= seq!['/', '/']);
    text::one_character_is_replaced(tail, '\\', '/');
    text::one_character_is_replaced(value, '\\', '/');
    let turned = slashed(tail);
    assert(turned =~= seq!['/'] + rest) by {
        assert forall|i: int| 0 <= i < turned.len() implies #[trigger] turned[i] == (seq!['/']
            + rest)[i] by {
            if i > 0 {
                assert(tail[i] == rest[i - 1]);
                assert(rest.contains(rest[i - 1]));
            }
        }
    }
    text::text_stands_where_it_was_put(Seq::empty(), seq!['/'], rest);
    assert(below(tail) == rest);
    assert(slashed(value) =~= value) by {
        assert forall|i: int| 0 <= i < value.len() implies #[trigger] slashed(value)[i] == value[i] by {
            assert(value.contains(value[i]));
        }
    }
    text::nothing_is_replaced(value, "//"@, "/"@);
}

/// Each bracket parts what stands before it from what stands behind it, and a text between
/// brackets is a part unless it is empty.
pub proof fn brackets_part_a_text(x: Seq<char>, c: char, y: Seq<char>, s: Seq<char>)
    requires
        c == '[' || c == ']',
        !s.contains('[') && !s.contains(']'),
    ensures
        key_parts(x + seq![c] + y) == key_parts(x) + key_parts(y),
        s.len() > 0 ==> key_parts(s) == seq![s],
        s.len() == 0 ==> key_parts(s).len() == 0,
{
    let keep = |p: Seq<char>| is_key_part(p);
    text::separator_parts_pieces(x, c, y, '[', ']');
    Seq::filter_distributes_over_add(
        text::split_either(x, '[', ']'),
        text::split_either(y, '[', ']'),
        keep,
    );
    text::text_without_separators_is_one_piece(s, '[', ']');
    let one = seq![s];
    reveal(Seq::filter);
    assert(one.drop_last() =~= Seq::empty());
    assert(one.drop_last().filter(keep) =~= Seq::empty());
    assert(one.last() == s);
    assert(one.filter(keep) =~= (if keep(s) {
        Seq::empty().push(s)
    } else {
        Seq::empty()
    }));
    assert(Seq::<Seq<char>>::empty().push(s) =~= one);
}

/// Of a text with two parts or more the first names the key, and the second is put below its
/// value, both with slashes for backslashes; one slash in front of the second does not count,
/// and two slashes of the value are one. Where there are fewer parts, or no value, the text
/// stays as it is.
pub proof fn second_part_is_put_below_the_value(style: PathStyle, key: Seq<char>, value: Seq<char>)
    ensures
        ({
            let turn = |c: char|
                if c == '\\' {
                    '/'
                } else {
                    c
                };
            let parts = key_parts(key);
            let rest = parts[1].map_values(turn);
            let base = value.map_values(turn);
            &&& parts.len() >= 2 ==> key_to_read(key) == Some(parts[0])
            &&& parts.len() >= 2 ==> full_path(style, key, Some(value)) == path::join_in(
                style,
                text::replace(base, seq!['/', '/'], seq!['/']),
                if rest.len() > 0 && rest[0] == '/' {
                    rest.skip(1)
                } else {
                    rest
                },
            )
            &&& parts.len() >= 2 ==> partial_path(key, Some(value)) == base
            &&& parts.len() < 2 ==> key_to_read(key) is None && full_path(style, key, Some(value))
                == key && partial_path(key, Some(value)) == key
            &&& full_path(style, key, None) == key
            &&& partial_path(key, None) == key
        }),
{
    let turn = |c: char|
        if c == '\\' {
            '/'
        } else {
            c
        };
    let part = key_parts(key)[1];
    reveal_strlit("\\");
    reveal_strlit("/");
    reveal_strlit("//");
    assert("\\"@ =~= seq!['\\']);
    assert("/"@ =~= seq!['/']);
    assert("//"@ =~= seq!['/', '/']);
    text::one_character_is_replaced(part, '\\', '/');
    text::one_character_is_replaced(value, '\\', '/');
    let rest = part.map_values(turn);
    assert(slashed(part) =~= rest);
    assert(slashed(value) =~= value.map_values(turn));
    if rest.len() > 0 && rest[0] == '/' {
        assert(rest.subrange(0, 1) =~= seq!['/']);
        assert(below(part) =~= rest.skip(1));
    } else {
        assert(!seq!['/'].is_prefix_of(rest)) by {
            if seq!['/'].is_prefix_of(rest) {
                assert(rest.subrange(0, 1)[0] == '/');
            }
        }
        assert(below(part) =~= rest);
    }
}

} // verus!
