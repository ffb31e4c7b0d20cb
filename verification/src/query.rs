//! The query-string fragment of a URL: rendering an ordered list of
//! key-value pairs as `k0=v0&k1=v1&...`, counting separators, and parsing
//! a rendered query back into the pair list.

use vstd::prelude::*;

verus! {

/// One rendered pair, `key=value`.
pub open spec fn pair_chars(p: (Seq<char>, Seq<char>)) -> Seq<char> {
    p.0 + "="@ + p.1
}

/// The rendered query string: pairs in order, `&` between consecutive
/// pairs, empty for an empty list.
pub open spec fn params_chars(ps: Seq<(Seq<char>, Seq<char>)>) -> Seq<char>
    decreases ps.len(),
{
    if ps.len() == 0 {
        Seq::empty()
    } else if ps.len() == 1 {
        pair_chars(ps[0])
    } else {
        pair_chars(ps[0]) + "&"@ + params_chars(ps.drop_first())
    }
}

/// A pair list and the pair appended render as the list, one separator,
/// and the pair.
pub proof fn lemma_params_chars_push(ps: Seq<(Seq<char>, Seq<char>)>, p: (Seq<char>, Seq<char>))
    requires
        ps.len() > 0,
    ensures
        params_chars(ps.push(p)) == params_chars(ps) + "&"@ + pair_chars(p),
    decreases ps.len(),
{
    if ps.len() == 1 {
        assert(ps.push(p).drop_first() =~= seq![p]);
        assert(ps.push(p)[0] == ps[0]);
        assert(params_chars(seq![p]) == pair_chars(p));
        assert(params_chars(ps.push(p)) =~= params_chars(ps) + "&"@ + pair_chars(p));
    } else {
        lemma_params_chars_push(ps.drop_first(), p);
        assert(ps.push(p).drop_first() =~= ps.drop_first().push(p));
        assert(ps.push(p)[0] == ps[0]);
        assert(params_chars(ps.push(p)) == pair_chars(ps[0]) + "&"@ + params_chars(
            ps.drop_first().push(p),
        ));
        assert(pair_chars(ps[0]) + "&"@ + (params_chars(ps.drop_first()) + "&"@ + pair_chars(p))
            =~= (pair_chars(ps[0]) + "&"@ + params_chars(ps.drop_first())) + "&"@ + pair_chars(p));
    }
}

/// A rendered non-empty pair list is itself non-empty.
pub proof fn lemma_params_chars_nonempty(ps: Seq<(Seq<char>, Seq<char>)>)
    requires
        ps.len() > 0,
    ensures
        params_chars(ps).len() > 0,
{
    reveal_strlit("=");
    assert(pair_chars(ps[0]).len() > 0);
}

/// True when no character of `s` equals `c`.
pub open spec fn free_of(s: Seq<char>, c: char) -> bool {
    forall|i: int| 0 <= i < s.len() ==> s[i] != c
}

/// The number of occurrences of `c` in `s`.
pub open spec fn occurrences(s: Seq<char>, c: char) -> nat
    decreases s.len(),
{
    if s.len() == 0 {
        0
    } else {
        occurrences(s.drop_last(), c) + if s.last() == c {
            1nat
        } else {
            0nat
        }
    }
}

/// Occurrence counts add over concatenation.
pub proof fn lemma_occurrences_concat(a: Seq<char>, b: Seq<char>, c: char)
    ensures
        occurrences(a + b, c) == occurrences(a, c) + occurrences(b, c),
    decreases b.len(),
{
    if b.len() == 0 {
        assert(a + b =~= a);
    } else {
        lemma_occurrences_concat(a, b.drop_last(), c);
        assert((a + b).drop_last() =~= a + b.drop_last());
        assert((a + b).last() == b.last());
    }
}

/// A string free of `c` contains zero occurrences of `c`.
pub proof fn lemma_occurrences_zero(s: Seq<char>, c: char)
    requires
        free_of(s, c),
    ensures
        occurrences(s, c) == 0,
    decreases s.len(),
{
    if s.len() > 0 {
        lemma_occurrences_zero(s.drop_last(), c);
    }
}

proof fn lemma_pair_chars_shape(p: (Seq<char>, Seq<char>))
    requires
        p.0.len() > 0,
        p.1.len() > 0,
        free_of(p.0, '&'),
        free_of(p.1, '&'),
    ensures
        occurrences(pair_chars(p), '&') == 0,
        pair_chars(p).len() > 0,
        pair_chars(p)[0] == p.0[0],
        pair_chars(p).last() == p.1.last(),
        pair_chars(p)[0] != '&',
        pair_chars(p).last() != '&',
{
    reveal_strlit("=");
    assert("="@ =~= seq!['=']);
    lemma_occurrences_zero(p.0, '&');
    lemma_occurrences_zero(p.1, '&');
    lemma_occurrences_zero(seq!['='], '&');
    lemma_occurrences_concat(p.0, seq!['='], '&');
    lemma_occurrences_concat(p.0 + seq!['='], p.1, '&');
    assert(pair_chars(p) =~= (p.0 + seq!['=']) + p.1);
    assert(pair_chars(p)[0] == p.0[0]);
    assert(pair_chars(p).last() == p.1.last());
}

/// For keys and values that are non-empty and free of the separator, the
/// rendered query holds exactly one `&` fewer than it holds pairs, and
/// neither starts nor ends with `&`.
pub proof fn lemma_join_params_separator_count(ps: Seq<(Seq<char>, Seq<char>)>)
    requires
        ps.len() > 0,
        forall|i: int| 0 <= i < ps.len() ==> {
            &&& (#[trigger] ps[i]).0.len() > 0
            &&& ps[i].1.len() > 0
            &&& free_of(ps[i].0, '&')
            &&& free_of(ps[i].1, '&')
        },
    ensures
        occurrences(params_chars(ps), '&') == ps.len() - 1,
        params_chars(ps).len() > 0,
        params_chars(ps)[0] != '&',
        params_chars(ps).last() != '&',
    decreases ps.len(),
{
    reveal_strlit("&");
    assert("&"@ =~= seq!['&']);
    lemma_pair_chars_shape(ps[0]);
    if ps.len() == 1 {
    } else {
        lemma_join_params_separator_count(ps.drop_first());
        let head = pair_chars(ps[0]);
        let rest = params_chars(ps.drop_first());
        lemma_occurrences_concat(head, seq!['&'], '&');
        assert(occurrences(seq!['&'], '&') == 1) by {
            assert(seq!['&'].drop_last() =~= Seq::<char>::empty());
            assert(occurrences(Seq::<char>::empty(), '&') == 0);
        }
        lemma_occurrences_concat(head + seq!['&'], rest, '&');
        assert(params_chars(ps) =~= (head + seq!['&']) + rest);
        assert(params_chars(ps)[0] == head[0]);
        assert(params_chars(ps).last() == rest.last());
    }
}

/// `s` split on `c`: the list of maximal segments between separators.
/// An empty string yields one empty segment.
pub open spec fn split_chars(s: Seq<char>, c: char) -> Seq<Seq<char>>
    decreases s.len(),
{
    if s.len() == 0 {
        seq![Seq::empty()]
    } else if s[0] == c {
        seq![Seq::<char>::empty()] + split_chars(s.drop_first(), c)
    } else {
        let rest = split_chars(s.drop_first(), c);
        seq![seq![s[0]] + rest[0]] + rest.drop_first()
    }
}

/// Splitting yields at least one segment.
pub proof fn lemma_split_chars_len(s: Seq<char>, c: char)
    ensures
        split_chars(s, c).len() >= 1,
    decreases s.len(),
{
    if s.len() > 0 {
        lemma_split_chars_len(s.drop_first(), c);
    }
}

/// A string free of the separator splits into itself alone.
pub proof fn lemma_split_chars_whole(s: Seq<char>, c: char)
    requires
        free_of(s, c),
    ensures
        split_chars(s, c) == seq![s],
    decreases s.len(),
{
    if s.len() == 0 {
        assert(split_chars(s, c) =~~= seq![s]);
    } else {
        lemma_split_chars_whole(s.drop_first(), c);
        assert(seq![s[0]] + s.drop_first() =~= s);
        assert(split_chars(s, c) =~~= seq![s]);
    }
}

/// Splitting `a + c + b` where `a` is free of `c` yields `a` and then the
/// segments of `b`.
pub proof fn lemma_split_chars_sep(a: Seq<char>, b: Seq<char>, c: char)
    requires
        free_of(a, c),
    ensures
        split_chars(a + seq![c] + b, c) == seq![a] + split_chars(b, c),
    decreases a.len(),
{
    let s = a + seq![c] + b;
    if a.len() == 0 {
        assert(s[0] == c);
        assert(s.drop_first() =~= b);
        assert(split_chars(s, c) =~~= seq![a] + split_chars(b, c));
    } else {
        lemma_split_chars_sep(a.drop_first(), b, c);
        assert(s[0] == a[0]);
        assert(s[0] != c);
        assert(s.drop_first() =~= a.drop_first() + seq![c] + b);
        lemma_split_chars_len(b, c);
        let rest = split_chars(s.drop_first(), c);
        assert(rest == seq![a.drop_first()] + split_chars(b, c));
        assert(rest[0] == a.drop_first());
        assert(seq![s[0]] + rest[0] =~= a);
        assert(rest.drop_first() =~= split_chars(b, c));
        assert(split_chars(s, c) =~~= seq![a] + split_chars(b, c));
    }
}

/// One query segment read back as a pair: the part before the first `=`
/// and everything after it.
pub open spec fn parse_pair(seg: Seq<char>) -> (Seq<char>, Seq<char>) {
    let k = split_chars(seg, '=')[0];
    (k, seg.skip(k.len() as int + 1))
}

/// A rendered query read back as an ordered pair list: split on `&`, then
/// each segment at its first `=`. An empty string reads as no pairs.
pub open spec fn parse_query(s: Seq<char>) -> Seq<(Seq<char>, Seq<char>)> {
    if s.len() == 0 {
        Seq::empty()
    } else {
        split_chars(s, '&').map_values(|seg: Seq<char>| parse_pair(seg))
    }
}

proof fn lemma_parse_pair(p: (Seq<char>, Seq<char>))
    requires
        free_of(p.0, '='),
    ensures
        parse_pair(pair_chars(p)) == p,
{
    reveal_strlit("=");
    assert("="@ =~= seq!['=']);
    assert(pair_chars(p) =~= p.0 + seq!['='] + p.1);
    lemma_split_chars_sep(p.0, p.1, '=');
    lemma_split_chars_len(p.1, '=');
    assert(split_chars(pair_chars(p), '=')[0] == p.0);
    assert(pair_chars(p).skip(p.0.len() as int + 1) =~= p.1);
}

/// Round trip: parsing a rendered query, by splitting on `&` and then on
/// the first `=`, returns the exact pair list that was rendered, order and
/// duplicates included. Keys must be non-empty and free of `&` and `=`;
/// values must be non-empty and free of `&`.
pub proof fn lemma_query_round_trip(ps: Seq<(Seq<char>, Seq<char>)>)
    requires
        forall|i: int| 0 <= i < ps.len() ==> {
            &&& (#[trigger] ps[i]).0.len() > 0
            &&& ps[i].1.len() > 0
            &&& free_of(ps[i].0, '&')
            &&& free_of(ps[i].0, '=')
            &&& free_of(ps[i].1, '&')
        },
    ensures
        parse_query(params_chars(ps)) == ps,
    decreases ps.len(),
{
    reveal_strlit("&");
    reveal_strlit("=");
    assert("&"@ =~= seq!['&']);
    assert("="@ =~= seq!['=']);
    if ps.len() == 0 {
        assert(parse_query(params_chars(ps)) =~~= ps);
    } else if ps.len() == 1 {
        lemma_pair_chars_shape(ps[0]);
        lemma_split_chars_whole(pair_chars(ps[0]), '&');
        lemma_parse_pair(ps[0]);
        assert(parse_query(params_chars(ps)) =~~= ps);
    } else {
        lemma_query_round_trip(ps.drop_first());
        lemma_pair_chars_shape(ps[0]);
        lemma_params_chars_nonempty(ps.drop_first());
        let head = pair_chars(ps[0]);
        let rest = params_chars(ps.drop_first());
        assert(params_chars(ps) =~= head + seq!['&'] + rest);
        lemma_split_chars_sep(head, rest, '&');
        lemma_split_chars_len(rest, '&');
        lemma_parse_pair(ps[0]);
        let segs = split_chars(params_chars(ps), '&');
        assert(segs == seq![head] + split_chars(rest, '&'));
        assert(parse_query(params_chars(ps)).len() == ps.len());
        assert forall|i: int| 0 <= i < ps.len() implies parse_query(params_chars(ps))[i]
            == ps[i] by {
            assert(parse_query(params_chars(ps))[i] == parse_pair(segs[i]));
            if i == 0 {
                assert(segs[0] == head);
            } else {
                assert(segs[i] == split_chars(rest, '&')[i - 1]);
                assert(parse_query(rest)[i - 1] == parse_pair(split_chars(rest, '&')[i - 1]));
                assert(parse_query(rest)[i - 1] == ps.drop_first()[i - 1]);
            }
        }
        assert(parse_query(params_chars(ps)) =~~= ps);
    }
}

} // verus!
