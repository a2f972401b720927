//! Reduction of per-repository language byte counts to a ranked distribution of
//! the most used languages.
use vstd::prelude::*;

verus! {

/// How many languages the ranking keeps.
pub const TOP_LANGUAGES: usize = 10;

/// One ranked language: its name and its share `bytes / total` of all counted bytes
/// (a percentage of `100 * bytes / total`).
pub struct LanguageShare {
    pub name: String,
    pub bytes: u64,
    pub total: u64,
}

/// A language name with a byte count.
pub type Tally = Seq<(Seq<char>, nat)>;

/// Byte counts of the languages of one repository, as handed in.
pub open spec fn entries_of(repo: Seq<(String, u64)>) -> Tally {
    Seq::new(repo.len(), |i: int| (repo[i].0@, repo[i].1 as nat))
}

/// Sum of the byte counts of a tally.
pub open spec fn tally_sum(t: Tally) -> nat
    decreases t.len(),
{
    if t.len() == 0 {
        0
    } else {
        tally_sum(t.drop_last()) + t.last().1
    }
}

/// Sum of every byte count of every repository.
pub open spec fn raw_total(repos: Seq<Vec<(String, u64)>>) -> nat
    decreases repos.len(),
{
    if repos.len() == 0 {
        0
    } else {
        raw_total(repos.drop_last()) + tally_sum(entries_of(repos.last()@))
    }
}

/// Position of `name` in `t`, or -1 when it is absent.
pub open spec fn position_of(t: Tally, name: Seq<char>) -> int
    decreases t.len(),
{
    if t.len() == 0 {
        -1
    } else if t.last().0 == name {
        t.len() - 1
    } else {
        position_of(t.drop_last(), name)
    }
}

/// Adds `bytes` to the count of `name`, appending the language when it is new.
pub open spec fn add_bytes(t: Tally, name: Seq<char>, bytes: nat) -> Tally {
    let k = position_of(t, name);
    if k < 0 {
        t.push((name, bytes))
    } else {
        t.update(k, (name, t[k].1 + bytes))
    }
}

/// `t` with every entry of `e` added, in order.
pub open spec fn add_all(t: Tally, e: Tally) -> Tally
    decreases e.len(),
{
    if e.len() == 0 {
        t
    } else {
        add_bytes(add_all(t, e.drop_last()), e.last().0, e.last().1)
    }
}

/// Byte totals per language over all repositories, each language once, in the
/// order in which it was first seen.
pub open spec fn merged(repos: Seq<Vec<(String, u64)>>) -> Tally
    decreases repos.len(),
{
    if repos.len() == 0 {
        Seq::empty()
    } else {
        add_all(merged(repos.drop_last()), entries_of(repos.last()@))
    }
}

/// Where an entry with `bytes` goes in a ranking: after every entry with at
/// least as many bytes.
pub open spec fn rank_position(t: Tally, bytes: nat) -> int
    decreases t.len(),
{
    if t.len() == 0 {
        0
    } else if t.last().1 >= bytes {
        t.len() as int
    } else {
        rank_position(t.drop_last(), bytes)
    }
}

/// `t` ordered by byte count, largest first; entries with equal counts keep
/// the order in which they appear in `t`.
pub open spec fn ranked(t: Tally) -> Tally
    decreases t.len(),
{
    if t.len() == 0 {
        Seq::empty()
    } else {
        let r = ranked(t.drop_last());
        r.insert(rank_position(r, t.last().1), t.last())
    }
}

/// The ranked distribution: nothing when no byte was counted, else the first
/// ten languages of the ranking of the per-language totals.
pub open spec fn top_languages(repos: Seq<Vec<(String, u64)>>) -> Tally {
    let m = merged(repos);
    if tally_sum(m) == 0 {
        Seq::empty()
    } else if ranked(m).len() <= TOP_LANGUAGES {
        ranked(m)
    } else {
        ranked(m).take(TOP_LANGUAGES as int)
    }
}

pub open spec fn is_ranked(t: Tally) -> bool {
    forall|i: int, j: int| 0 <= i < j < t.len() ==> t[i].1 >= t[j].1
}

pub open spec fn names_unique(t: Tally) -> bool {
    forall|i: int, j: int| 0 <= i < j < t.len() ==> t[i].0 != t[j].0
}

pub open spec fn view_shares(v: Seq<LanguageShare>) -> Tally {
    Seq::new(v.len(), |i: int| (v[i].name@, v[i].bytes as nat))
}

pub open spec fn view_pairs(v: Seq<(String, u64)>) -> Tally {
    entries_of(v)
}

proof fn lemma_sum_push(t: Tally, x: (Seq<char>, nat))
    ensures
        tally_sum(t.push(x)) == tally_sum(t) + x.1,
{
    assert(t.push(x).drop_last() =~= t);
}

proof fn lemma_sum_update(t: Tally, k: int, x: (Seq<char>, nat))
    requires
        0 <= k < t.len(),
    ensures
        tally_sum(t.update(k, x)) + t[k].1 == tally_sum(t) + x.1,
        t[k].1 <= tally_sum(t),
    decreases t.len(),
{
    if k == t.len() - 1 {
        assert(t.update(k, x).drop_last() =~= t.drop_last());
    } else {
        lemma_sum_update(t.drop_last(), k, x);
        assert(t.update(k, x).drop_last() =~= t.drop_last().update(k, x));
    }
}

proof fn lemma_position(t: Tally, name: Seq<char>)
    ensures
        -1 <= position_of(t, name) < t.len(),
        position_of(t, name) >= 0 ==> t[position_of(t, name)].0 == name,
        position_of(t, name) < 0 ==> forall|i: int| 0 <= i < t.len() ==> t[i].0 != name,
    decreases t.len(),
{
    if t.len() > 0 && t.last().0 != name {
        lemma_position(t.drop_last(), name);
        if position_of(t, name) < 0 {
            assert forall|i: int| 0 <= i < t.len() implies t[i].0 != name by {
                if i < t.len() - 1 {
                    assert(t[i] == t.drop_last()[i]);
                }
            }
        }
    }
}

proof fn lemma_add_bytes(t: Tally, name: Seq<char>, bytes: nat)
    requires
        names_unique(t),
    ensures
        names_unique(add_bytes(t, name, bytes)),
        tally_sum(add_bytes(t, name, bytes)) == tally_sum(t) + bytes,
{
    lemma_position(t, name);
    let k = position_of(t, name);
    if k < 0 {
        lemma_sum_push(t, (name, bytes));
    } else {
        lemma_sum_update(t, k, (name, t[k].1 + bytes));
    }
}

proof fn lemma_entries_sum_prefix(e: Tally, j: int)
    requires
        0 <= j <= e.len(),
    ensures
        tally_sum(e.subrange(0, j)) <= tally_sum(e),
    decreases e.len(),
{
    if j < e.len() {
        lemma_entries_sum_prefix(e.drop_last(), j);
        assert(e.drop_last().subrange(0, j) =~= e.subrange(0, j));
    } else {
        assert(e.subrange(0, j) =~= e);
    }
}

proof fn lemma_raw_total_prefix(repos: Seq<Vec<(String, u64)>>, i: int)
    requires
        0 <= i <= repos.len(),
    ensures
        raw_total(repos.subrange(0, i)) <= raw_total(repos),
    decreases repos.len(),
{
    if i < repos.len() {
        lemma_raw_total_prefix(repos.drop_last(), i);
        assert(repos.drop_last().subrange(0, i) =~= repos.subrange(0, i));
    } else {
        assert(repos.subrange(0, i) =~= repos);
    }
}

/// The index of `name` in `acc`, or `None` when it is absent.
fn find_language(acc: &Vec<(String, u64)>, name: &String) -> (r: Option<usize>)
    ensures
        r is None ==> position_of(view_pairs(acc@), name@) < 0,
        r is Some ==> r->0 == position_of(view_pairs(acc@), name@),
{
    let mut k: usize = acc.len();
    assert(view_pairs(acc@).subrange(0, k as int) =~= view_pairs(acc@));
    while k > 0
        invariant
            k <= acc@.len(),
            position_of(view_pairs(acc@), name@) == position_of(
                view_pairs(acc@).subrange(0, k as int),
                name@,
            ),
        decreases k,
    {
        let ghost t = view_pairs(acc@).subrange(0, k as int);
        assert(t.drop_last() =~= view_pairs(acc@).subrange(0, k - 1));
        if acc[k - 1].0 == *name {
            return Some(k - 1);
        }
        k -= 1;
    }
    None
}

/// Adds the byte counts of one repository to `acc`.
fn add_repository(acc: &mut Vec<(String, u64)>, repo: &Vec<(String, u64)>, Ghost(budget): Ghost<nat>)
    requires
        names_unique(view_pairs(old(acc)@)),
        tally_sum(view_pairs(old(acc)@)) + tally_sum(entries_of(repo@)) <= budget,
        budget <= u64::MAX,
    ensures
        view_pairs(final(acc)@) == add_all(view_pairs(old(acc)@), entries_of(repo@)),
        names_unique(view_pairs(final(acc)@)),
        tally_sum(view_pairs(final(acc)@)) == tally_sum(view_pairs(old(acc)@)) + tally_sum(
            entries_of(repo@),
        ),
{
    let ghost start = view_pairs(acc@);
    let ghost e = entries_of(repo@);
    let mut j: usize = 0;
    while j < repo.len()
        invariant
            j <= repo@.len(),
            e == entries_of(repo@),
            view_pairs(acc@) == add_all(start, e.subrange(0, j as int)),
            names_unique(view_pairs(acc@)),
            tally_sum(view_pairs(acc@)) == tally_sum(start) + tally_sum(e.subrange(0, j as int)),
            tally_sum(start) + tally_sum(e) <= budget,
            budget <= u64::MAX,
        decreases repo@.len() - j,
    {
        let ghost before = view_pairs(acc@);
        let name = &repo[j].0;
        let bytes = repo[j].1;
        proof {
            assert(e.subrange(0, j + 1).drop_last() =~= e.subrange(0, j as int));
            lemma_add_bytes(before, name@, bytes as nat);
            lemma_position(before, name@);
            lemma_entries_sum_prefix(e, j + 1);
            lemma_sum_push(e.subrange(0, j as int), e[j as int]);
            assert(e.subrange(0, j as int).push(e[j as int]) =~= e.subrange(0, j + 1));
        }
        match find_language(acc, name) {
            Some(k) => {
                proof {
                    lemma_sum_update(before, k as int, (name@, (before[k as int].1 + bytes) as nat));
                }
                let sum = acc[k].1 + bytes;
                acc.set(k, (acc[k].0.clone(), sum));
                assert(view_pairs(acc@) =~= add_bytes(before, name@, bytes as nat));
            },
            None => {
                acc.push((name.clone(), bytes));
                assert(view_pairs(acc@) =~= add_bytes(before, name@, bytes as nat));
            },
        }
        j += 1;
    }
    assert(e.subrange(0, j as int) =~= e);
}

/// Byte totals per language over all repositories, in first-seen order.
fn merge_repositories(repos: &Vec<Vec<(String, u64)>>) -> (r: Vec<(String, u64)>)
    requires
        raw_total(repos@) <= u64::MAX,
    ensures
        view_pairs(r@) == merged(repos@),
        tally_sum(merged(repos@)) == raw_total(repos@),
        names_unique(merged(repos@)),
{
    let mut acc: Vec<(String, u64)> = Vec::new();
    let mut i: usize = 0;
    assert(view_pairs(acc@) =~= merged(repos@.subrange(0, 0)));
    while i < repos.len()
        invariant
            i <= repos@.len(),
            view_pairs(acc@) == merged(repos@.subrange(0, i as int)),
            tally_sum(view_pairs(acc@)) == raw_total(repos@.subrange(0, i as int)),
            names_unique(view_pairs(acc@)),
            raw_total(repos@) <= u64::MAX,
        decreases repos@.len() - i,
    {
        proof {
            assert(repos@.subrange(0, i + 1).drop_last() =~= repos@.subrange(0, i as int));
            lemma_raw_total_prefix(repos@, i + 1);
        }
        add_repository(&mut acc, &repos[i], Ghost(raw_total(repos@)));
        i += 1;
    }
    assert(repos@.subrange(0, i as int) =~= repos@);
    acc
}

proof fn lemma_rank_position(t: Tally, bytes: nat)
    ensures
        0 <= rank_position(t, bytes) <= t.len(),
        rank_position(t, bytes) > 0 ==> t[rank_position(t, bytes) - 1].1 >= bytes,
        forall|i: int| rank_position(t, bytes) <= i < t.len() ==> t[i].1 < bytes,
    decreases t.len(),
{
    if t.len() > 0 && t.last().1 < bytes {
        lemma_rank_position(t.drop_last(), bytes);
        assert forall|i: int| rank_position(t, bytes) <= i < t.len() implies t[i].1 < bytes by {
            if i < t.len() - 1 {
                assert(t[i] == t.drop_last()[i]);
            }
        }
    }
}

/// Where an entry with `bytes` goes in the ranking `t`.
fn find_rank(t: &Vec<(String, u64)>, bytes: u64) -> (r: usize)
    ensures
        r == rank_position(view_pairs(t@), bytes as nat),
{
    let mut p: usize = t.len();
    assert(view_pairs(t@).subrange(0, p as int) =~= view_pairs(t@));
    while p > 0
        invariant
            p <= t@.len(),
            rank_position(view_pairs(t@), bytes as nat) == rank_position(
                view_pairs(t@).subrange(0, p as int),
                bytes as nat,
            ),
        decreases p,
    {
        assert(view_pairs(t@).subrange(0, p as int).drop_last() =~= view_pairs(t@).subrange(
            0,
            p - 1,
        ));
        if t[p - 1].1 >= bytes {
            return p;
        }
        p -= 1;
    }
    p
}

/// `t` ordered by byte count, largest first, equal counts in their order in `t`.
fn rank(t: &Vec<(String, u64)>) -> (r: Vec<(String, u64)>)
    ensures
        view_pairs(r@) == ranked(view_pairs(t@)),
{
    let mut r: Vec<(String, u64)> = Vec::new();
    let mut i: usize = 0;
    assert(view_pairs(r@) =~= ranked(view_pairs(t@).subrange(0, 0)));
    while i < t.len()
        invariant
            i <= t@.len(),
            view_pairs(r@) == ranked(view_pairs(t@).subrange(0, i as int)),
        decreases t@.len() - i,
    {
        let ghost before = view_pairs(r@);
        assert(view_pairs(t@).subrange(0, i + 1).drop_last() =~= view_pairs(t@).subrange(
            0,
            i as int,
        ));
        let p = find_rank(&r, t[i].1);
        proof {
            lemma_rank_position(before, t[i as int].1 as nat);
        }
        r.insert(p, (t[i].0.clone(), t[i].1));
        assert(view_pairs(r@) =~= before.insert(p as int, view_pairs(t@)[i as int]));
        i += 1;
    }
    assert(view_pairs(t@).subrange(0, i as int) =~= view_pairs(t@));
    r
}

/// Reduces the per-repository byte counts (one list of language and byte count
/// per repository) to the ranked distribution: bytes are summed per language
/// over all repositories, the languages are ranked by their share of the total,
/// largest first, languages with equal shares in the order in which they were
/// first seen, and the first ten are kept, each with the total it is a share
/// of. When no byte was counted the result is empty.
pub fn aggregate(repos: &Vec<Vec<(String, u64)>>) -> (r: Vec<LanguageShare>)
    requires
        raw_total(repos@) <= u64::MAX,
    ensures
        view_shares(r@) == top_languages(repos@),
        forall|i: int| 0 <= i < r@.len() ==> r@[i].total == raw_total(repos@),
{
    let m = merge_repositories(repos);
    let mut total: u64 = 0;
    let mut i: usize = 0;
    while i < m.len()
        invariant
            i <= m@.len(),
            total == tally_sum(view_pairs(m@).subrange(0, i as int)),
            tally_sum(view_pairs(m@)) <= u64::MAX,
        decreases m@.len() - i,
    {
        proof {
            assert(view_pairs(m@).subrange(0, i + 1).drop_last() =~= view_pairs(m@).subrange(
                0,
                i as int,
            ));
            lemma_entries_sum_prefix(view_pairs(m@), i + 1);
        }
        total = total + m[i].1;
        i += 1;
    }
    assert(view_pairs(m@).subrange(0, i as int) =~= view_pairs(m@));
    let mut out: Vec<LanguageShare> = Vec::new();
    if total == 0 {
        assert(view_shares(out@) =~= top_languages(repos@));
        return out;
    }
    let ranking = rank(&m);
    let ghost rk = view_pairs(ranking@);
    let mut k: usize = 0;
    while k < ranking.len() && k < TOP_LANGUAGES
        invariant
            k <= ranking@.len(),
            k <= TOP_LANGUAGES,
            view_shares(out@) == rk.subrange(0, k as int),
            rk == view_pairs(ranking@),
            total == raw_total(repos@),
            forall|i: int| 0 <= i < out@.len() ==> out@[i].total == total,
        decreases ranking@.len() - k,
    {
        let name = ranking[k].0.clone();
        assert(name@ == rk[k as int].0);
        let ghost prev = out@;
        out.push(LanguageShare { name, bytes: ranking[k].1, total });
        assert(view_shares(out@) =~= view_shares(prev).push(rk[k as int]));
        assert(rk.subrange(0, k + 1) =~= rk.subrange(0, k as int).push(rk[k as int]));
        k += 1;
    }
    assert(view_shares(out@) =~= top_languages(repos@));
    out
}

proof fn lemma_add_all(t: Tally, e: Tally)
    requires
        names_unique(t),
    ensures
        names_unique(add_all(t, e)),
        tally_sum(add_all(t, e)) == tally_sum(t) + tally_sum(e),
    decreases e.len(),
{
    if e.len() > 0 {
        lemma_add_all(t, e.drop_last());
        lemma_add_bytes(add_all(t, e.drop_last()), e.last().0, e.last().1);
    }
}

proof fn lemma_merged(repos: Seq<Vec<(String, u64)>>)
    ensures
        names_unique(merged(repos)),
        tally_sum(merged(repos)) == raw_total(repos),
    decreases repos.len(),
{
    if repos.len() > 0 {
        lemma_merged(repos.drop_last());
        lemma_add_all(merged(repos.drop_last()), entries_of(repos.last()@));
    }
}

proof fn lemma_sum_insert(t: Tally, p: int, x: (Seq<char>, nat))
    requires
        0 <= p <= t.len(),
    ensures
        tally_sum(t.insert(p, x)) == tally_sum(t) + x.1,
    decreases t.len(),
{
    if p == t.len() {
        assert(t.insert(p, x) =~= t.push(x));
        lemma_sum_push(t, x);
    } else {
        lemma_sum_insert(t.drop_last(), p, x);
        assert(t.insert(p, x).drop_last() =~= t.drop_last().insert(p, x));
    }
}

proof fn lemma_ranked(t: Tally)
    ensures
        ranked(t).len() == t.len(),
        tally_sum(ranked(t)) == tally_sum(t),
        is_ranked(ranked(t)),
    decreases t.len(),
{
    if t.len() > 0 {
        let r = ranked(t.drop_last());
        let x = t.last();
        lemma_ranked(t.drop_last());
        lemma_rank_position(r, x.1);
        let p = rank_position(r, x.1);
        lemma_sum_insert(r, p, x);
        lemma_sum_push(t.drop_last(), x);
        assert(t.drop_last().push(x) =~= t);
        let s = r.insert(p, x);
        assert forall|i: int, j: int| 0 <= i < j < s.len() implies s[i].1 >= s[j].1 by {
            if j < p {
            } else if j == p {
                assert(r[p - 1].1 >= x.1);
                if i < p - 1 {
                    assert(r[i].1 >= r[p - 1].1);
                }
            } else if i < p {
                assert(r[j - 1].1 < x.1);
                if i < p - 1 {
                    assert(r[i].1 >= r[p - 1].1);
                }
            } else if i == p {
                assert(r[j - 1].1 < x.1);
            } else {
                assert(s[i] == r[i - 1] && s[j] == r[j - 1]);
            }
        }
    }
}

/// With no byte counted at all, the ranked distribution is empty.
pub proof fn lemma_no_bytes_no_languages(repos: Seq<Vec<(String, u64)>>)
    requires
        raw_total(repos) == 0,
    ensures
        top_languages(repos).len() == 0,
{
    lemma_merged(repos);
}

/// The ranked distribution is ordered by share, largest first; its shares add up
/// to at most the whole, and to exactly the whole when no more than ten distinct
/// languages were counted.
pub proof fn lemma_ranking_laws(repos: Seq<Vec<(String, u64)>>)
    ensures
        is_ranked(top_languages(repos)),
        tally_sum(top_languages(repos)) <= raw_total(repos),
        merged(repos).len() <= TOP_LANGUAGES ==> tally_sum(top_languages(repos)) == raw_total(
            repos,
        ),
{
    let m = merged(repos);
    lemma_merged(repos);
    lemma_ranked(m);
    if tally_sum(m) > 0 && ranked(m).len() > TOP_LANGUAGES {
        lemma_entries_sum_prefix(ranked(m), TOP_LANGUAGES as int);
        assert(ranked(m).take(TOP_LANGUAGES as int) =~= ranked(m).subrange(0, TOP_LANGUAGES as int));
    }
}

} // verus!
