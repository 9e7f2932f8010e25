//! Text helpers shared by the command-line builders.

use vstd::prelude::*;

verus! {

/// The parts joined by `sep`, with `sep` between neighbours and nowhere else.
pub open spec fn join(parts: Seq<Seq<char>>, sep: Seq<char>) -> Seq<char>
    decreases parts.len(),
{
    if parts.len() == 0 {
        Seq::empty()
    } else if parts.len() == 1 {
        parts[0]
    } else {
        join(parts.drop_last(), sep) + sep + parts.last()
    }
}

/// `flag` put before every item: `[flag, items[0], flag, items[1], ...]`.
pub open spec fn flag_each(flag: Seq<char>, items: Seq<Seq<char>>) -> Seq<Seq<char>>
    decreases items.len(),
{
    if items.len() == 0 {
        Seq::empty()
    } else {
        flag_each(flag, items.drop_last()) + seq![flag, items.last()]
    }
}

/// Every item gets its own flag: the result holds two entries per item, the
/// flag at each even position and the item right after it, in order.
pub proof fn lemma_flag_each_pairs(flag: Seq<char>, items: Seq<Seq<char>>)
    ensures
        flag_each(flag, items).len() == 2 * items.len(),
        forall|i: int| 0 <= i < items.len() ==> #[trigger] flag_each(flag, items)[2 * i] == flag
            && flag_each(flag, items)[2 * i + 1] == items[i],
    decreases items.len(),
{
    if items.len() > 0 {
        lemma_flag_each_pairs(flag, items.drop_last());
        let prev = flag_each(flag, items.drop_last());
        assert forall|i: int| 0 <= i < items.len() implies #[trigger] flag_each(flag, items)[2 * i] == flag
            && flag_each(flag, items)[2 * i + 1] == items[i] by {
            if i < items.len() - 1 {
                assert(flag_each(flag, items)[2 * i] == prev[2 * i]);
                assert(flag_each(flag, items)[2 * i + 1] == prev[2 * i + 1]);
                assert(items.drop_last()[i] == items[i]);
            }
        }
    }
}

/// Pushes `flag` and a copy of each item of `items` onto `args`, in order.
pub fn push_flag_each(args: &mut Vec<String>, flag: &str, items: &Vec<String>)
    ensures
        final(args).deep_view() == old(args).deep_view() + flag_each(flag@, items.deep_view()),
{
    let ghost start = args.deep_view();
    let ghost all = items.deep_view();
    let mut i: usize = 0;
    while i < items.len()
        invariant
            0 <= i <= items.len(),
            all == items.deep_view(),
            args.deep_view() == start + flag_each(flag@, all.take(i as int)),
        decreases items.len() - i,
    {
        let ghost before = args.deep_view();
        args.push(String::from_str(flag));
        args.push(items[i].clone());
        proof {
            assert(all.take(i + 1).drop_last() =~= all.take(i as int));
            assert(args.deep_view() =~= before + seq![flag@, all[i as int]]);
            assert(args.deep_view() =~= start + flag_each(flag@, all.take(i + 1)));
        }
        i = i + 1;
    }
    proof {
        assert(all.take(items.len() as int) =~= all);
    }
}


/// The pieces of `s` between the occurrences of `sep`, as `str::split` with a
/// `char` pattern gives them: one more piece than there are separators, and
/// empty pieces where separators touch each other or the ends.
pub open spec fn split_at_char(s: Seq<char>, sep: char) -> Seq<Seq<char>>
    decreases s.len(),
{
    if s.len() == 0 {
        seq![Seq::empty()]
    } else {
        let rest = split_at_char(s.drop_first(), sep);
        if s[0] == sep {
            seq![Seq::<char>::empty()] + rest
        } else {
            rest.update(0, seq![s[0]] + rest[0])
        }
    }
}

/// `sep` does not occur in `s`.
pub open spec fn free_of(s: Seq<char>, sep: char) -> bool {
    forall|i: int| 0 <= i < s.len() ==> s[i] != sep
}

proof fn lemma_split_len_positive(s: Seq<char>, sep: char)
    ensures
        split_at_char(s, sep).len() >= 1,
    decreases s.len(),
{
    if s.len() > 0 {
        lemma_split_len_positive(s.drop_first(), sep);
    }
}

/// A text without the separator is one piece.
pub proof fn lemma_split_free(s: Seq<char>, sep: char)
    requires
        free_of(s, sep),
    ensures
        split_at_char(s, sep) == seq![s],
    decreases s.len(),
{
    if s.len() > 0 {
        lemma_split_free(s.drop_first(), sep);
        assert(seq![s[0]] + s.drop_first() =~= s);
        assert(seq![s.drop_first()].update(0, seq![s[0]] + s.drop_first()) =~= seq![s]);
    } else {
        assert(s =~= Seq::<char>::empty());
    }
}

/// Splitting `a`, a separator, then `b` gives the pieces of `a`, then those of `b`.
pub proof fn lemma_split_concat(a: Seq<char>, b: Seq<char>, sep: char)
    ensures
        split_at_char(a + seq![sep] + b, sep) == split_at_char(a, sep) + split_at_char(b, sep),
    decreases a.len(),
{
    let s = a + seq![sep] + b;
    if a.len() == 0 {
        assert(s =~= seq![sep] + b);
        assert(s.drop_first() =~= b);
        assert(split_at_char(a, sep) == seq![Seq::<char>::empty()]);
    } else {
        lemma_split_concat(a.drop_first(), b, sep);
        assert(s.drop_first() =~= a.drop_first() + seq![sep] + b);
        assert(s[0] == a[0]);
        lemma_split_len_positive(a.drop_first(), sep);
        let ra = split_at_char(a.drop_first(), sep);
        let rb = split_at_char(b, sep);
        if a[0] != sep {
            assert((ra + rb).update(0, seq![a[0]] + (ra + rb)[0])
                =~= ra.update(0, seq![a[0]] + ra[0]) + rb);
        } else {
            assert(seq![Seq::<char>::empty()] + (ra + rb) =~= (seq![Seq::<char>::empty()] + ra) + rb);
        }
    }
}

/// Joining pieces that are free of the separator and splitting the result
/// again gives the pieces back.
pub proof fn lemma_split_join(parts: Seq<Seq<char>>, sep: char)
    requires
        parts.len() >= 1,
        forall|i: int| 0 <= i < parts.len() ==> free_of(#[trigger] parts[i], sep),
    ensures
        split_at_char(join(parts, seq![sep]), sep) == parts,
    decreases parts.len(),
{
    if parts.len() == 1 {
        lemma_split_free(parts[0], sep);
        assert(seq![parts[0]] =~= parts);
    } else {
        let init = parts.drop_last();
        assert forall|i: int| 0 <= i < init.len() implies free_of(#[trigger] init[i], sep) by {
            assert(init[i] == parts[i]);
        }
        lemma_split_join(init, sep);
        assert(free_of(parts[parts.len() - 1], sep));
        lemma_split_free(parts.last(), sep);
        lemma_split_concat(join(init, seq![sep]), parts.last(), sep);
        assert(init + seq![parts.last()] =~= parts);
    }
}

} // verus!
