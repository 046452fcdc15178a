//! Command line arguments in one text.

use vstd::prelude::*;
use crate::text;
use crate::text::chars_of;

verus! {

/// Whether a quote is open after the text.
pub open spec fn quote_open(s: Seq<char>) -> bool
    decreases s.len(),
{
    s.len() > 0 && (quote_open(s.drop_last()) != (s.last() == '"'))
}

/// The pieces of the text between the spaces that stand outside quotes, without the quotes;
/// there is always at least one.
pub open spec fn pieces(s: Seq<char>) -> Seq<Seq<char>>
    decreases s.len(),
{
    if s.len() == 0 {
        seq![s]
    } else {
        let before = pieces(s.drop_last());
        if s.last() == '"' {
            before
        } else if s.last() == ' ' && !quote_open(s.drop_last()) {
            before.push(Seq::empty())
        } else {
            before.drop_last().push(before.last().push(s.last()))
        }
    }
}

/// Whether a piece is an argument.
pub open spec fn is_filled(s: Seq<char>) -> bool {
    s.len() > 0
}

/// The arguments in the text: its pieces that are not empty.
pub open spec fn arguments(s: Seq<char>) -> Seq<Seq<char>> {
    pieces(s).filter(|p: Seq<char>| is_filled(p))
}

proof fn lemma_pieces_nonempty(s: Seq<char>)
    ensures
        pieces(s).len() >= 1,
    decreases s.len(),
{
    if s.len() > 0 {
        lemma_pieces_nonempty(s.drop_last());
    }
}

/// The arguments in a text. Spaces part them, unless they stand between quotes; the quotes
/// themselves belong to no argument.
pub fn parse_arguments(input: &str) -> (r: Vec<String>)
    ensures
        text::views(r@) == arguments(input@),
{
    let v = chars_of(input);
    let ghost keep = |p: Seq<char>| is_filled(p);
    let mut args: Vec<String> = Vec::new();
    let mut current = String::new();
    let mut in_quotes = false;
    let mut i: usize = 0;
    assert(v@.take(0) =~= Seq::empty());
    assert(pieces(v@.take(0)) =~= seq![Seq::<char>::empty()]);
    assert(pieces(v@.take(0)).drop_last() =~= Seq::empty());
    assert(text::views(args@) =~= Seq::<Seq<char>>::empty().filter(keep)) by {
        reveal(Seq::filter);
    }
    assert(current@ =~= Seq::empty());
    while i < v.len()
        invariant
            i <= v@.len(),
            v@ == input@,
            keep == (|p: Seq<char>| is_filled(p)),
            in_quotes == quote_open(v@.take(i as int)),
            text::views(args@) == pieces(v@.take(i as int)).drop_last().filter(keep),
            current@ == pieces(v@.take(i as int)).last(),
        decreases v@.len() - i,
    {
        let ghost before = pieces(v@.take(i as int));
        let ghost list = text::views(args@);
        let c = v[i];
        assert(v@.take(i + 1).drop_last() =~= v@.take(i as int));
        assert(v@.take(i + 1).last() == c);
        proof {
            lemma_pieces_nonempty(v@.take(i as int));
            reveal(Seq::filter);
        }
        if c == ' ' && !in_quotes {
            assert(before.push(Seq::empty()).drop_last() =~= before);
            if !current.as_str().is_empty() {
                args.push(current);
                assert(text::views(args@) =~= list.push(before.last()));
            }
            current = String::new();
            assert(current@ =~= Seq::empty());
        } else if c == '"' {
            in_quotes = !in_quotes;
        } else {
            current.push(c);
            assert(before.drop_last().push(current@).drop_last() =~= before.drop_last());
        }
        i += 1;
    }
    assert(v@.take(v@.len() as int) =~= v@);
    proof {
        lemma_pieces_nonempty(v@);
        reveal(Seq::filter);
    }
    let ghost list = text::views(args@);
    if !current.as_str().is_empty() {
        args.push(current);
        assert(text::views(args@) =~= list.push(pieces(v@).last()));
    }
    args
}

proof fn lemma_no_quote(s: Seq<char>, i: int)
    requires
        0 <= i < pieces(s).len(),
    ensures
        !pieces(s)[i].contains('"'),
    decreases s.len(),
{
    if s.len() > 0 {
        let before = pieces(s.drop_last());
        lemma_pieces_nonempty(s.drop_last());
        if i < before.len() {
            lemma_no_quote(s.drop_last(), i);
        }
        if s.last() != '"' && !(s.last() == ' ' && !quote_open(s.drop_last())) && i == before.len()
            - 1 {
            let p = before.last().push(s.last());
            if p.contains('"') {
                let k = choose|k: int| 0 <= k < p.len() && p[k] == '"';
                assert(before.last()[k] == '"');
            }
        }
    }
}

/// No argument is empty, and none holds a quote.
pub proof fn arguments_are_clean(s: Seq<char>, i: int)
    requires
        0 <= i < arguments(s).len(),
    ensures
        arguments(s)[i].len() > 0,
        !arguments(s)[i].contains('"'),
{
    let keep = |p: Seq<char>| is_filled(p);
    pieces(s).lemma_filter_pred(keep, i);
    assert forall|j: int| 0 <= j < pieces(s).len() implies !(#[trigger] pieces(s)[j]).contains(
        '"',
    ) by {
        lemma_no_quote(s, j);
    }
    lemma_filter_members(pieces(s), keep, i);
}

proof fn lemma_filter_members(list: Seq<Seq<char>>, keep: spec_fn(Seq<char>) -> bool, i: int)
    requires
        0 <= i < list.filter(keep).len(),
    ensures
        list.contains(list.filter(keep)[i]),
    decreases list.len(),
{
    reveal(Seq::filter);
    if list.len() > 0 {
        let before = list.drop_last().filter(keep);
        if i < before.len() {
            lemma_filter_members(list.drop_last(), keep, i);
            let k = choose|k: int| 0 <= k < list.len() - 1 && list.drop_last()[k] == before[i];
            assert(list[k] == list.filter(keep)[i]);
        } else {
            assert(list.filter(keep)[i] == list[list.len() - 1]);
        }
    }
}

proof fn lemma_quote_open_add(a: Seq<char>, b: Seq<char>)
    ensures
        quote_open(a + b) == (quote_open(a) != quote_open(b)),
    decreases b.len(),
{
    if b.len() == 0 {
        assert(a + b =~= a);
    } else {
        assert((a + b).drop_last() =~= a + b.drop_last());
        lemma_quote_open_add(a, b.drop_last());
    }
}

proof fn lemma_pieces_join(a: Seq<char>, b: Seq<char>)
    requires
        !quote_open(a),
    ensures
        pieces(a + seq![' '] + b) == pieces(a) + pieces(b),
    decreases b.len(),
{
    let head = a + seq![' '];
    lemma_pieces_nonempty(b);
    assert(head.drop_last() =~= a);
    if b.len() == 0 {
        assert(head + b =~= head);
        assert(b =~= Seq::empty());
        assert(pieces(b) =~= seq![Seq::<char>::empty()]);
        assert(pieces(a).push(Seq::empty()) =~= pieces(a) + pieces(b));
    } else {
        let rest = b.drop_last();
        lemma_pieces_join(a, rest);
        lemma_pieces_nonempty(rest);
        lemma_quote_open_add(head, rest);
        assert(!quote_open(head));
        assert((head + b).drop_last() =~= head + rest);
        let all = pieces(a) + pieces(rest);
        assert(all.drop_last() =~= pieces(a) + pieces(rest).drop_last());
        assert(all.last() == pieces(rest).last());
        assert(pieces(head + b) =~= pieces(a) + pieces(b));
    }
}

/// Where the first text leaves no quote open, the arguments of two texts with a space
/// between them are those of the one and then those of the other.
pub proof fn arguments_of_both(a: Seq<char>, b: Seq<char>)
    requires
        !quote_open(a),
    ensures
        arguments(a + seq![' '] + b) == arguments(a) + arguments(b),
{
    let keep = |p: Seq<char>| is_filled(p);
    lemma_pieces_join(a, b);
    Seq::filter_distributes_over_add(pieces(a), pieces(b), keep);
}

/// A text in quotes.
pub open spec fn in_quotes(arg: Seq<char>) -> Seq<char> {
    seq!['"'] + arg + seq!['"']
}

/// Some texts in quotes, with spaces between them.
pub open spec fn all_in_quotes(args: Seq<Seq<char>>) -> Seq<char> {
    text::join(args.map_values(|a: Seq<char>| in_quotes(a)), " "@)
}

proof fn lemma_one_in_quotes(arg: Seq<char>)
    requires
        !arg.contains('"'),
    ensures
        quote_open(seq!['"'] + arg),
        pieces(seq!['"'] + arg) == seq![arg],
    decreases arg.len(),
{
    let s = seq!['"'] + arg;
    reveal_with_fuel(quote_open, 2);
    reveal_with_fuel(pieces, 2);
    if arg.len() == 0 {
        assert(arg =~= Seq::empty());
        assert(s.drop_last() =~= Seq::empty());
        assert(s.last() == '"');
        assert(pieces(s) =~= seq![arg]);
    } else {
        let rest = arg.drop_last();
        assert(s.drop_last() =~= seq!['"'] + rest);
        assert(arg.contains(arg.last()));
        assert forall|c: char| rest.contains(c) implies arg.contains(c) by {
            let k = choose|k: int| 0 <= k < rest.len() && rest[k] == c;
            assert(arg[k] == c);
        }
        lemma_one_in_quotes(rest);
        assert(seq![rest].drop_last().push(rest.push(arg.last())) =~= seq![arg]) by {
            assert(rest.push(arg.last()) =~= arg);
        }
    }
}

/// Arguments that are written in quotes are read back as they are, with their spaces. They
/// hold no quotes themselves and are not empty.
pub proof fn quoted_arguments_read_back(args: Seq<Seq<char>>)
    requires
        forall|i: int|
            0 <= i < args.len() ==> (#[trigger] args[i]).len() > 0 && !args[i].contains('"'),
    ensures
        arguments(all_in_quotes(args)) == args,
        !quote_open(all_in_quotes(args)),
    decreases args.len(),
{
    let keep = |p: Seq<char>| is_filled(p);
    let list = args.map_values(|a: Seq<char>| in_quotes(a));
    reveal_with_fuel(Seq::filter, 2);
    reveal_with_fuel(quote_open, 2);
    reveal_strlit(" ");
    assert(" "@ =~= seq![' ']);
    if args.len() == 0 {
        assert(all_in_quotes(args) =~= Seq::empty());
        assert(pieces(Seq::<char>::empty()) =~= seq![Seq::<char>::empty()]);
        assert(seq![Seq::<char>::empty()].drop_last() =~= Seq::empty());
        assert(arguments(all_in_quotes(args)) =~= args);
    } else {
        let last = args.last();
        let rest = args.drop_last();
        assert(args[args.len() - 1] == last);
        lemma_one_in_quotes(last);
        assert(in_quotes(last).drop_last() =~= seq!['"'] + last);
        assert(pieces(in_quotes(last)) == seq![last]);
        assert(seq![last].drop_last() =~= Seq::empty());
        assert(arguments(in_quotes(last)) =~= seq![last]);
        assert(list.drop_last() =~= rest.map_values(|a: Seq<char>| in_quotes(a)));
        assert(list.last() == in_quotes(last));
        if args.len() == 1 {
            assert(all_in_quotes(args) =~= in_quotes(last));
            assert(args =~= seq![last]);
        } else {
            assert forall|i: int| 0 <= i < rest.len() implies (#[trigger] rest[i]).len() > 0
                && !rest[i].contains('"') by {
                assert(rest[i] == args[i]);
            }
            quoted_arguments_read_back(rest);
            let before = all_in_quotes(rest);
            assert(all_in_quotes(args) =~= before + seq![' '] + in_quotes(last));
            arguments_of_both(before, in_quotes(last));
            lemma_quote_open_add(before + seq![' '], in_quotes(last));
            lemma_quote_open_add(before, seq![' ']);
            assert(seq![' '].drop_last() =~= Seq::empty());
            assert(rest + seq![last] =~= args);
        }
    }
}

/// Whether an odd number of quotes stands in the text.
pub open spec fn odd_quotes(s: Seq<char>) -> bool {
    s.filter(|c: char| c == '"').len() % 2 == 1
}

proof fn lemma_odd_quotes(s: Seq<char>)
    ensures
        quote_open(s) == odd_quotes(s),
    decreases s.len(),
{
    reveal(Seq::filter);
    if s.len() > 0 {
        lemma_odd_quotes(s.drop_last());
    }
}

/// A text whose spaces all stand after an odd number of quotes is one argument: its
/// characters without the quotes, in order. Where these are none, it holds no argument.
pub proof fn unparted_text_is_one_argument(s: Seq<char>)
    requires
        forall|i: int| 0 <= i < s.len() && #[trigger] s[i] == ' ' ==> odd_quotes(s.take(i)),
    ensures
        arguments(s) == (if s.filter(|c: char| c != '"').len() > 0 {
            seq![s.filter(|c: char| c != '"')]
        } else {
            Seq::empty()
        }),
{
    let keep = |p: Seq<char>| is_filled(p);
    lemma_unparted(s);
    let p = s.filter(|c: char| c != '"');
    reveal_with_fuel(Seq::filter, 2);
    assert(seq![p].drop_last() =~= Seq::empty());
    assert(seq![p].filter(keep) =~= if p.len() > 0 {
        seq![p]
    } else {
        Seq::empty()
    });
}

proof fn lemma_unparted(s: Seq<char>)
    requires
        forall|i: int| 0 <= i < s.len() && #[trigger] s[i] == ' ' ==> odd_quotes(s.take(i)),
    ensures
        pieces(s) == seq![s.filter(|c: char| c != '"')],
    decreases s.len(),
{
    reveal(Seq::filter);
    if s.len() == 0 {
        assert(s.filter(|c: char| c != '"') =~= s);
    } else {
        let rest = s.drop_last();
        assert forall|i: int| 0 <= i < rest.len() && #[trigger] rest[i] == ' ' implies odd_quotes(
            rest.take(i),
        ) by {
            assert(s[i] == ' ');
            assert(rest.take(i) =~= s.take(i));
        }
        lemma_unparted(rest);
        lemma_odd_quotes(rest);
        assert(s.take(s.len() - 1) =~= rest);
        assert(s[s.len() - 1] == s.last());
        let p = rest.filter(|c: char| c != '"');
        assert(pieces(s) =~= seq![s.filter(|c: char| c != '"')]);
    }
}

/// A text that is not empty and holds neither a space nor a quote is one argument: itself.
pub proof fn word_is_one_argument(s: Seq<char>)
    requires
        s.len() > 0,
        !s.contains(' '),
        !s.contains('"'),
    ensures
        arguments(s) == seq![s],
{
    assert forall|i: int| 0 <= i < s.len() && #[trigger] s[i] == ' ' implies odd_quotes(
        s.take(i),
    ) by {
        assert(s.contains(s[i]));
    }
    unparted_text_is_one_argument(s);
    lemma_filter_all(s, |c: char| c != '"');
}

proof fn lemma_filter_all(s: Seq<char>, keep: spec_fn(char) -> bool)
    requires
        forall|i: int| 0 <= i < s.len() ==> keep(#[trigger] s[i]),
    ensures
        s.filter(keep) == s,
    decreases s.len(),
{
    reveal(Seq::filter);
    if s.len() > 0 {
        assert(keep(s[s.len() - 1]));
        assert forall|i: int| 0 <= i < s.drop_last().len() implies keep(
            #[trigger] s.drop_last()[i],
        ) by {
            assert(keep(s[i]));
        }
        lemma_filter_all(s.drop_last(), keep);
        assert(s.drop_last().push(s.last()) =~= s);
    }
}

/// A space after an even number of quotes parts arguments: those before it and those after
/// it are read apart.
pub proof fn outer_space_parts_arguments(a: Seq<char>, b: Seq<char>)
    requires
        !odd_quotes(a),
    ensures
        arguments(a + seq![' '] + b) == arguments(a) + arguments(b),
{
    lemma_odd_quotes(a);
    arguments_of_both(a, b);
}

/// Characters are neither lost nor added nor moved: the arguments of a text without quotes,
/// one after the other, are its characters other than spaces.
pub proof fn arguments_hold_all_characters(s: Seq<char>)
    requires
        !s.contains('"'),
    ensures
        text::join(arguments(s), Seq::empty()) == s.filter(|c: char| c != ' '),
{
    lemma_joined_pieces(s);
    lemma_joined_filled(pieces(s));
}

proof fn lemma_join_push(list: Seq<Seq<char>>, last: Seq<char>)
    ensures
        text::join(list.push(last), Seq::empty()) == text::join(list, Seq::empty()) + last,
{
    assert(list.push(last).drop_last() =~= list);
    if list.len() == 0 {
        assert(text::join(list, Seq::empty()) + last =~= last);
    } else {
        assert(text::join(list, Seq::empty()) + Seq::<char>::empty() + last =~= text::join(
            list,
            Seq::empty(),
        ) + last);
    }
}

proof fn lemma_joined_filled(list: Seq<Seq<char>>)
    ensures
        text::join(list.filter(|p: Seq<char>| is_filled(p)), Seq::empty()) == text::join(
            list,
            Seq::empty(),
        ),
    decreases list.len(),
{
    let keep = |p: Seq<char>| is_filled(p);
    reveal(Seq::filter);
    if list.len() > 0 {
        let rest = list.drop_last();
        lemma_joined_filled(rest);
        assert(rest.push(list.last()) =~= list);
        lemma_join_push(rest, list.last());
        if is_filled(list.last()) {
            lemma_join_push(rest.filter(keep), list.last());
        } else {
            assert(text::join(rest, Seq::empty()) + list.last() =~= text::join(rest, Seq::empty()));
        }
    }
}

proof fn lemma_joined_pieces(s: Seq<char>)
    requires
        !s.contains('"'),
    ensures
        text::join(pieces(s), Seq::empty()) == s.filter(|c: char| c != ' '),
    decreases s.len(),
{
    reveal(Seq::filter);
    let none = Seq::<char>::empty();
    if s.len() == 0 {
        assert(s.filter(|c: char| c != ' ') =~= s);
    } else {
        let rest = s.drop_last();
        assert(s.contains(s.last())) by {
            assert(s[s.len() - 1] == s.last());
        }
        assert forall|c: char| rest.contains(c) implies s.contains(c) by {
            let k = choose|k: int| 0 <= k < rest.len() && rest[k] == c;
            assert(s[k] == c);
        }
        lemma_joined_pieces(rest);
        lemma_pieces_nonempty(rest);
        let before = pieces(rest);
        lemma_filter_none(rest, |c: char| c == '"');
        lemma_odd_quotes(rest);
        if s.last() == ' ' {
            lemma_join_push(before, none);
            assert(text::join(before, none) + none =~= text::join(before, none));
        } else {
            let head = before.drop_last();
            assert(head.push(before.last()) =~= before);
            lemma_join_push(head, before.last());
            lemma_join_push(head, before.last().push(s.last()));
            assert(text::join(head, none) + before.last().push(s.last()) =~= (text::join(head, none)
                + before.last()).push(s.last()));
        }
    }
}

proof fn lemma_filter_none(s: Seq<char>, keep: spec_fn(char) -> bool)
    requires
        forall|i: int| 0 <= i < s.len() ==> !keep(#[trigger] s[i]),
    ensures
        s.filter(keep).len() == 0,
    decreases s.len(),
{
    reveal(Seq::filter);
    if s.len() > 0 {
        assert(!keep(s[s.len() - 1]));
        assert forall|i: int| 0 <= i < s.drop_last().len() implies !keep(
            #[trigger] s.drop_last()[i],
        ) by {
            assert(!keep(s[i]));
        }
        lemma_filter_none(s.drop_last(), keep);
    }
}

} // verus!
