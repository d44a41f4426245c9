use vstd::prelude::*;

verus! {

/// Index of the first `|` in `s`, or `s.len()` if there is none.
pub open spec fn find_sep(s: Seq<char>) -> nat
    decreases s.len(),
{
    if s.len() == 0 {
        0
    } else if s[0] == '|' {
        0
    } else {
        (1 + find_sep(s.drop_first())) as nat
    }
}

/// The segments of `s` between `|` separators, in order. The empty
/// string splits into one empty segment, as `str::split` has it.
pub open spec fn split_spec(s: Seq<char>) -> Seq<Seq<char>>
    decreases s.len(),
{
    let i = find_sep(s);
    if i >= s.len() {
        seq![s]
    } else {
        seq![s.take(i as int)] + split_spec(s.skip(i as int + 1))
    }
}

/// The tags joined into one string, `|` between consecutive tags.
pub open spec fn join_spec(tags: Seq<Seq<char>>) -> Seq<char>
    decreases tags.len(),
{
    if tags.len() == 0 {
        Seq::empty()
    } else if tags.len() == 1 {
        tags[0]
    } else {
        tags[0] + seq!['|'] + join_spec(tags.drop_first())
    }
}

/// A tag that survives a join-then-split round trip: one with no `|`
/// in it.
pub open spec fn tag_ok(t: Seq<char>) -> bool {
    forall|k: int| 0 <= k < t.len() ==> t[k] != '|'
}

/// `find_sep` returns exactly the position of the first separator:
/// the index below which no `|` occurs and which either is the end
/// of the string or holds a `|`.
proof fn lemma_find_sep_at(s: Seq<char>, j: int)
    requires
        0 <= j <= s.len(),
        forall|k: int| 0 <= k < j ==> s[k] != '|',
        j == s.len() || s[j] == '|',
    ensures
        find_sep(s) == j,
    decreases s.len(),
{
    if s.len() == 0 {
    } else if s[0] == '|' {
        assert(j == 0);
    } else {
        assert(j >= 1);
        let t = s.drop_first();
        assert(forall|k: int| 0 <= k < j - 1 ==> t[k] == s[k + 1] && t[k] != '|');
        assert(j - 1 == t.len() || t[j - 1] == '|');
        lemma_find_sep_at(t, j - 1);
    }
}

/// Splitting a string whose first separator is at `j` peels off the
/// prefix before `j` and splits the rest.
proof fn lemma_split_step(s: Seq<char>, j: int)
    requires
        0 <= j < s.len(),
        forall|k: int| 0 <= k < j ==> s[k] != '|',
        s[j] == '|',
    ensures
        split_spec(s) == seq![s.take(j)] + split_spec(s.skip(j + 1)),
{
    lemma_find_sep_at(s, j);
}

/// Splitting a string with no separator yields that string alone.
proof fn lemma_split_whole(s: Seq<char>)
    requires
        tag_ok(s),
    ensures
        split_spec(s) == seq![s],
{
    lemma_find_sep_at(s, s.len() as int);
}

/// Appending one more tag to a join appends a separator and the tag.
proof fn lemma_join_push(tags: Seq<Seq<char>>, x: Seq<char>)
    requires
        tags.len() >= 1,
    ensures
        join_spec(tags.push(x)) == join_spec(tags) + seq!['|'] + x,
    decreases tags.len(),
{
    let p = tags.push(x);
    if tags.len() == 1 {
        assert(p.drop_first() =~~= seq![x]);
        assert(join_spec(p.drop_first()) == x);
        assert(join_spec(p) == p[0] + seq!['|'] + x);
        assert(p[0] == tags[0]);
    } else {
        assert(p.drop_first() =~~= tags.drop_first().push(x));
        lemma_join_push(tags.drop_first(), x);
        assert(join_spec(p) == tags[0] + seq!['|'] + (join_spec(tags.drop_first()) + seq!['|']
            + x));
        assert(tags[0] + seq!['|'] + (join_spec(tags.drop_first()) + seq!['|'] + x) =~= (tags[0]
            + seq!['|'] + join_spec(tags.drop_first())) + seq!['|'] + x);
    }
}

/// A joined tag list has no separator inside its first tag, and its
/// first separator sits right after it.
///
/// Law: joining a non-empty tag list with `|` and splitting the
/// result on `|` gives back the same ordered list, provided no tag
/// itself contains a `|`. An empty list is left out: it joins to the
/// empty string, which splits into one empty segment.
pub proof fn lemma_tags_round_trip(tags: Seq<Seq<char>>)
    requires
        tags.len() >= 1,
        forall|j: int| 0 <= j < tags.len() ==> tag_ok(#[trigger] tags[j]),
    ensures
        split_spec(join_spec(tags)) == tags,
    decreases tags.len(),
{
    if tags.len() == 1 {
        lemma_split_whole(tags[0]);
        assert(split_spec(join_spec(tags)) =~~= tags);
    } else {
        let s = join_spec(tags);
        let t0 = tags[0];
        let rest = tags.drop_first();
        assert(s == t0 + seq!['|'] + join_spec(rest));
        assert(forall|k: int| 0 <= k < t0.len() ==> s[k] == t0[k]);
        assert(s[t0.len() as int] == '|');
        lemma_split_step(s, t0.len() as int);
        assert(s.take(t0.len() as int) =~= t0);
        assert(s.skip(t0.len() as int + 1) =~= join_spec(rest));
        lemma_tags_round_trip(rest);
        assert(seq![t0] + rest =~~= tags);
    }
}

/// The tag list as one string: tags joined with `|` between
/// consecutive tags, as the post rows store them.
pub fn join_tags(tags: &Vec<String>) -> (r: String)
    ensures
        r@ == join_spec(tags.deep_view()),
{
    let ghost all = tags.deep_view();
    let mut r = String::new();
    let mut k: usize = 0;
    proof {
        reveal_strlit("|");
        assert(all.take(0) =~~= Seq::<Seq<char>>::empty());
    }
    while k < tags.len()
        invariant
            k <= tags.len(),
            all == tags.deep_view(),
            all.len() == tags.len(),
            r@ == join_spec(all.take(k as int)),
        decreases tags.len() - k,
    {
        proof {
            reveal_strlit("|");
            assert("|"@ =~= seq!['|']);
            assert(all.take(k as int + 1) =~~= all.take(k as int).push(all[k as int]));
            if k >= 1 {
                lemma_join_push(all.take(k as int), all[k as int]);
            }
        }
        if k > 0 {
            r.append("|");
        }
        r.append(tags[k].as_str());
        assert(tags@[k as int]@ == all[k as int]);
        k += 1;
    }
    proof {
        assert(all.take(tags.len() as int) =~~= all);
    }
    r
}

/// The stored tag string cut back into the ordered tag list.
pub fn split_tags(s: &str) -> (r: Vec<String>)
    ensures
        r.deep_view() == split_spec(s@),
{
    let n = s.unicode_len();
    let mut r: Vec<String> = Vec::new();
    let mut start: usize = 0;
    let mut i: usize = 0;
    proof {
        assert(s@.skip(0) =~= s@);
        assert(r.deep_view() + split_spec(s@) =~~= split_spec(s@));
    }
    while i < n
        invariant
            n == s@.len(),
            start <= i <= n,
            forall|k: int| start <= k < i ==> s@[k] != '|',
            split_spec(s@) == r.deep_view() + split_spec(s@.skip(start as int)),
        decreases n - i,
    {
        if s.get_char(i) == '|' {
            let seg = s.substring_char(start, i).to_owned();
            proof {
                let tail = s@.skip(start as int);
                assert(forall|k: int| 0 <= k < i - start ==> tail[k] == s@[k + start]);
                lemma_split_step(tail, i as int - start as int);
                assert(tail.take(i as int - start as int) =~= seg@);
                assert(tail.skip(i as int - start as int + 1) =~= s@.skip(i as int + 1));
            }
            let ghost prev = r.deep_view();
            r.push(seg);
            proof {
                assert(r.deep_view() =~~= prev + seq![seg@]);
                assert(prev + (seq![seg@] + split_spec(s@.skip(i as int + 1))) =~~= (prev + seq![
                    seg@,
                ]) + split_spec(s@.skip(i as int + 1)));
            }
            start = i + 1;
        }
        i += 1;
    }
    let seg = s.substring_char(start, n).to_owned();
    proof {
        let tail = s@.skip(start as int);
        assert(forall|k: int| 0 <= k < tail.len() ==> tail[k] == s@[k + start]);
        lemma_split_whole(tail);
        assert(tail =~= seg@);
    }
    let ghost prev = r.deep_view();
    r.push(seg);
    proof {
        assert(r.deep_view() =~~= prev + seq![seg@]);
    }
    r
}

} // verus!
