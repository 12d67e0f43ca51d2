use vstd::prelude::*;

use crate::guard::seq_join;
use crate::text::push_char;
use crate::user::string_views;

verus! {

/// Scanning `s` from the left, split at each `'|'`: the segments already
/// closed by a `'|'`, and the segment still open at the end.
pub open spec fn split_state(s: Seq<char>) -> (Seq<Seq<char>>, Seq<char>)
    decreases s.len(),
{
    if s.len() == 0 {
        (Seq::empty(), Seq::empty())
    } else {
        let (done, current) = split_state(s.drop_last());
        if s.last() == '|' {
            (done.push(current), Seq::empty())
        } else {
            (done, current.push(s.last()))
        }
    }
}

/// `s` split at every `'|'` (as `str::split('|')` does): one more segment
/// than there are `'|'` characters, empty segments included.
pub open spec fn split_bar(s: Seq<char>) -> Seq<Seq<char>> {
    let (done, current) = split_state(s);
    done.push(current)
}

/// The non-empty strings of `xs`, in order.
pub open spec fn nonempty_only(xs: Seq<Seq<char>>) -> Seq<Seq<char>>
    decreases xs.len(),
{
    if xs.len() == 0 {
        Seq::empty()
    } else if xs.last().len() > 0 {
        nonempty_only(xs.drop_last()).push(xs.last())
    } else {
        nonempty_only(xs.drop_last())
    }
}

/// The groups listed in a `groups` header value: the `'|'`-separated
/// segments, with empty segments dropped.
pub open spec fn parse_groups(s: Seq<char>) -> Seq<Seq<char>> {
    nonempty_only(split_bar(s))
}

/// Splits a `|`-separated list of groups, dropping empty entries.
pub fn split_groups(text: &str) -> (groups: Vec<String>)
    ensures
        string_views(groups@) == parse_groups(text@),
{
    broadcast use vstd::string::group_string_axioms;
    let mut out: Vec<String> = Vec::new();
    let mut current = String::new();
    let ghost mut done: Seq<Seq<char>> = Seq::empty();
    for c in it: text.chars()
        invariant
            it.seq() == text@,
            split_state(text@.take(it.index())) == (done, current@),
            string_views(out@) == nonempty_only(done),
    {
        assert(text@.take(it.index() + 1).drop_last() =~= text@.take(it.index()));
        if c == '|' {
            proof {
                assert(done.push(current@).drop_last() =~= done);
            }
            if !current.as_str().is_empty() {
                out.push(current);
                proof {
                    assert(string_views(out@) =~= nonempty_only(done.push(current@)));
                }
            }
            proof {
                done = done.push(current@);
            }
            current = String::new();
        } else {
            push_char(&mut current, c);
        }
    }
    assert(text@.take(text@.len() as int) =~= text@);
    proof {
        assert(done.push(current@).drop_last() =~= done);
    }
    if !current.as_str().is_empty() {
        out.push(current);
        assert(string_views(out@) =~= nonempty_only(done.push(current@)));
    }
    out
}


/// A group name as the `groups` header can carry it: not empty and free of
/// the separator `'|'`.
pub open spec fn is_listable_group(g: Seq<char>) -> bool {
    g.len() > 0 && !g.contains('|')
}

/// Appending text free of `'|'` only extends the open segment.
proof fn lemma_split_state_append_plain(p: Seq<char>, s: Seq<char>)
    requires
        !s.contains('|'),
    ensures
        split_state(p + s) == (split_state(p).0, split_state(p).1 + s),
    decreases s.len(),
{
    if s.len() == 0 {
        assert(p + s =~= p);
        assert(split_state(p).1 + s =~= split_state(p).1);
    } else {
        let init = s.drop_last();
        assert(!init.contains('|')) by {
            if init.contains('|') {
                let k = choose|k: int| 0 <= k < init.len() && init[k] == '|';
                assert(s[k] == '|');
            }
        }
        assert(s.last() != '|') by {
            assert(s[s.len() - 1] == s.last());
        }
        lemma_split_state_append_plain(p, init);
        assert((p + s).drop_last() =~= p + init);
        assert((p + s).last() == s.last());
        assert(split_state(p).1 + init.push(s.last()) =~= split_state(p).1 + s);
        assert((split_state(p).1 + init).push(s.last()) =~= split_state(p).1 + s);
    }
}

/// Splitting the `'|'`-join of groups free of `'|'` gives them back.
proof fn lemma_split_join(gs: Seq<Seq<char>>)
    requires
        gs.len() > 0,
        forall|i: int| 0 <= i < gs.len() ==> !(#[trigger] gs[i]).contains('|'),
    ensures
        split_bar(seq_join(gs, seq!['|'])) == gs,
    decreases gs.len(),
{
    if gs.len() == 1 {
        lemma_split_state_append_plain(Seq::empty(), gs[0]);
        assert(Seq::<char>::empty() + gs[0] =~= gs[0]);
        assert(split_bar(gs[0]) =~= gs);
    } else {
        let init = gs.drop_last();
        assert forall|i: int| 0 <= i < init.len() implies !(#[trigger] init[i]).contains('|') by {
            assert(init[i] == gs[i]);
        }
        lemma_split_join(init);
        let j = seq_join(init, seq!['|']);
        let with_bar = j + seq!['|'];
        assert(with_bar.drop_last() =~= j);
        assert(with_bar.last() == '|');
        assert(split_state(with_bar) == (split_bar(j), Seq::<char>::empty()));
        assert(!gs.last().contains('|')) by {
            assert(gs[gs.len() - 1] == gs.last());
        }
        lemma_split_state_append_plain(with_bar, gs.last());
        assert(Seq::<char>::empty() + gs.last() =~= gs.last());
        assert(split_bar(seq_join(gs, seq!['|'])) =~= init.push(gs.last()));
        assert(init.push(gs.last()) =~= gs);
    }
}

/// Dropping empty strings from a list with none leaves it unchanged.
proof fn lemma_nonempty_only_keeps(gs: Seq<Seq<char>>)
    requires
        forall|i: int| 0 <= i < gs.len() ==> (#[trigger] gs[i]).len() > 0,
    ensures
        nonempty_only(gs) == gs,
    decreases gs.len(),
{
    if gs.len() > 0 {
        let init = gs.drop_last();
        assert forall|i: int| 0 <= i < init.len() implies (#[trigger] init[i]).len() > 0 by {
            assert(init[i] == gs[i]);
        }
        lemma_nonempty_only_keeps(init);
        assert(gs.last() == gs[gs.len() - 1]);
        assert(init.push(gs.last()) =~= gs);
    }
}

/// Law: a `groups` header written as the group names joined by `'|'` is read
/// back as exactly those names, in order, provided each name is non-empty and
/// free of `'|'`. In particular the empty header reads as no groups.
pub proof fn law_groups_join_then_parse(gs: Seq<Seq<char>>)
    requires
        forall|i: int| 0 <= i < gs.len() ==> is_listable_group(#[trigger] gs[i]),
    ensures
        parse_groups(seq_join(gs, seq!['|'])) == gs,
{
    if gs.len() == 0 {
        let empty_list = seq![Seq::<char>::empty()];
        assert(seq_join(gs, seq!['|']) =~= Seq::<char>::empty());
        assert(split_bar(Seq::empty()) =~= empty_list);
        assert(empty_list.drop_last() =~= Seq::<Seq<char>>::empty());
        assert(empty_list.last().len() == 0);
        assert(nonempty_only(empty_list) == nonempty_only(Seq::<Seq<char>>::empty()));
        assert(gs =~= Seq::<Seq<char>>::empty());
    } else {
        assert forall|i: int| 0 <= i < gs.len() implies !(#[trigger] gs[i]).contains('|') by {
            assert(is_listable_group(gs[i]));
        }
        lemma_split_join(gs);
        assert forall|i: int| 0 <= i < gs.len() implies (#[trigger] gs[i]).len() > 0 by {
            assert(is_listable_group(gs[i]));
        }
        lemma_nonempty_only_keeps(gs);
    }
}

/// No segment of a split holds the separator.
proof fn lemma_split_segments_plain(s: Seq<char>)
    ensures
        forall|i: int| 0 <= i < split_bar(s).len() ==> !(#[trigger] split_bar(s)[i]).contains('|'),
    decreases s.len(),
{
    if s.len() > 0 {
        let init = s.drop_last();
        lemma_split_segments_plain(init);
        let (done, current) = split_state(init);
        assert(split_bar(init) == done.push(current));
        assert forall|i: int| 0 <= i < done.len() implies !(#[trigger] done[i]).contains('|') by {
            assert(done[i] == split_bar(init)[i]);
        }
        assert(!current.contains('|')) by {
            assert(current == split_bar(init)[done.len() as int]);
        }
        if s.last() != '|' {
            assert(!current.push(s.last()).contains('|')) by {
                if current.push(s.last()).contains('|') {
                    let k = choose|k: int| 0 <= k < current.len() + 1 && current.push(s.last())[k] == '|';
                    if k < current.len() {
                        assert(current[k] == '|');
                    }
                }
            }
        }
        assert(!Seq::<char>::empty().contains('|'));
    }
}

/// Every string kept by `nonempty_only` is a non-empty member of the input.
proof fn lemma_nonempty_only_members(xs: Seq<Seq<char>>)
    ensures
        forall|i: int| 0 <= i < nonempty_only(xs).len() ==> (#[trigger] nonempty_only(xs)[i]).len() > 0 && xs.contains(nonempty_only(xs)[i]),
    decreases xs.len(),
{
    if xs.len() > 0 {
        let init = xs.drop_last();
        lemma_nonempty_only_members(init);
        assert forall|i: int| 0 <= i < nonempty_only(xs).len() implies (#[trigger] nonempty_only(xs)[i]).len() > 0 && xs.contains(nonempty_only(xs)[i]) by {
            if i < nonempty_only(init).len() {
                assert(nonempty_only(xs)[i] == nonempty_only(init)[i]);
                let k = choose|k: int| 0 <= k < init.len() && init[k] == nonempty_only(init)[i];
                assert(xs[k] == init[k]);
            } else {
                assert(nonempty_only(xs)[i] == xs.last());
                assert(xs[xs.len() - 1] == xs.last());
            }
        }
    }
}

/// Law: every group read from a `groups` header is non-empty and free of
/// the separator `'|'`.
pub proof fn law_parsed_groups_are_listable(s: Seq<char>)
    ensures
        forall|i: int| 0 <= i < parse_groups(s).len() ==> is_listable_group(#[trigger] parse_groups(s)[i]),
{
    lemma_split_segments_plain(s);
    lemma_nonempty_only_members(split_bar(s));
    assert forall|i: int| 0 <= i < parse_groups(s).len() implies is_listable_group(#[trigger] parse_groups(s)[i]) by {
        let g = parse_groups(s)[i];
        let k = choose|k: int| 0 <= k < split_bar(s).len() && split_bar(s)[k] == g;
        assert(!split_bar(s)[k].contains('|'));
    }
}


/// The `'|'`-join of the segments closed so far and the open one is the
/// text scanned so far.
proof fn lemma_split_state_rejoins(s: Seq<char>)
    ensures
        seq_join(split_state(s).0.push(split_state(s).1), seq!['|']) == s,
    decreases s.len(),
{
    let bar = seq!['|'];
    if s.len() == 0 {
        assert(seq_join(seq![Seq::<char>::empty()], bar) == Seq::<char>::empty()) by {
            assert(seq![Seq::<char>::empty()].len() == 1);
        }
        assert(Seq::<Seq<char>>::empty().push(Seq::<char>::empty()) =~= seq![Seq::<char>::empty()]);
        assert(s =~= Seq::<char>::empty());
    } else {
        let init = s.drop_last();
        lemma_split_state_rejoins(init);
        let (done, current) = split_state(init);
        let before = done.push(current);
        assert(before.len() > 0);
        if s.last() == '|' {
            let after = before.push(Seq::<char>::empty());
            assert(after.drop_last() =~= before);
            assert(seq_join(after, bar) == seq_join(before, bar) + bar + Seq::<char>::empty());
            assert(seq_join(before, bar) + bar + Seq::<char>::empty() =~= init.push('|'));
            assert(init.push(s.last()) =~= s);
        } else {
            let after = done.push(current.push(s.last()));
            if done.len() == 0 {
                assert(before =~= seq![current]);
                assert(seq_join(before, bar) == current);
                assert(after =~= seq![current.push(s.last())]);
                assert(seq_join(after, bar) == current.push(s.last()));
            } else {
                assert(after.drop_last() =~= done);
                assert(before.drop_last() =~= done);
                assert(seq_join(after, bar) == seq_join(done, bar) + bar + current.push(s.last()));
                assert(seq_join(before, bar) == seq_join(done, bar) + bar + current);
                assert(seq_join(done, bar) + bar + current.push(s.last()) =~= (seq_join(done, bar) + bar + current).push(s.last()));
            }
            assert(init.push(s.last()) =~= s);
        }
    }
}

/// Law: splitting at `'|'` loses nothing: joining the segments back with
/// `'|'` gives the text character for character. With the segments being
/// free of `'|'` (`law_parsed_groups_are_listable`), this fixes the split.
pub proof fn law_split_rejoins(s: Seq<char>)
    ensures
        seq_join(split_bar(s), seq!['|']) == s,
        forall|i: int| 0 <= i < split_bar(s).len() ==> !(#[trigger] split_bar(s)[i]).contains('|'),
{
    lemma_split_state_rejoins(s);
    lemma_split_segments_plain(s);
}

/// Law: dropping empty strings keeps exactly the non-empty ones, in order.
pub proof fn law_nonempty_only_is_filter(xs: Seq<Seq<char>>)
    ensures
        nonempty_only(xs) == xs.filter(|x: Seq<char>| x.len() > 0),
    decreases xs.len(),
{
    reveal_with_fuel(Seq::filter, 1);
    if xs.len() > 0 {
        law_nonempty_only_is_filter(xs.drop_last());
    }
}

/// Law: the groups read from a header text are its `'|'`-segments with the
/// empty ones dropped, in order, each character for character.
pub proof fn law_parse_groups_are_segments(s: Seq<char>)
    ensures
        parse_groups(s) == split_bar(s).filter(|x: Seq<char>| x.len() > 0),
        seq_join(split_bar(s), seq!['|']) == s,
{
    law_nonempty_only_is_filter(split_bar(s));
    law_split_rejoins(s);
}

} // verus!
