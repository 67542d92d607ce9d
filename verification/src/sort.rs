//! Stable ordering of the collected records by issuing country.

use vstd::prelude::*;
use vstd::seq_lib::group_seq_properties;
use crate::record::CertificateRecord;
use crate::record::RecordView;
use crate::record::views_of;
use crate::text::lemma_lex_le_refl;
use crate::text::lemma_lex_le_total;
use crate::text::lemma_lex_le_trans;
use crate::text::lex_le;
use crate::text::str_le;

verus! {

/// The records are in non-decreasing order of issuing country.
pub open spec fn sorted_by_country(s: Seq<RecordView>) -> bool {
    forall|i: int, j: int|
        0 <= i < j < s.len() ==> lex_le(s[i].issuing_country, s[j].issuing_country)
}

/// The subsequence of records issued by one country, in order.
pub open spec fn country_group(s: Seq<RecordView>, c: Seq<char>) -> Seq<RecordView> {
    s.filter(|r: RecordView| r.issuing_country == c)
}

/// A sequence in which no record is issued by `c` has an empty group for `c`.
proof fn lemma_country_group_absent(s: Seq<RecordView>, c: Seq<char>)
    requires
        forall|j: int| 0 <= j < s.len() ==> s[j].issuing_country != c,
    ensures
        country_group(s, c) == Seq::<RecordView>::empty(),
    decreases s.len(),
{
    reveal(Seq::filter);
    if s.len() != 0 {
        lemma_country_group_absent(s.drop_last(), c);
    }
}

/// Inserting a record after every record of its own country and before
/// none of them changes each country's group by at most appending it.
proof fn lemma_country_group_insert(s: Seq<RecordView>, p: int, x: RecordView, c: Seq<char>)
    requires
        0 <= p <= s.len(),
        forall|j: int| p <= j < s.len() ==> s[j].issuing_country != x.issuing_country,
    ensures
        c == x.issuing_country ==> country_group(s.insert(p, x), c) == country_group(s, c).push(
            x,
        ),
        c != x.issuing_country ==> country_group(s.insert(p, x), c) == country_group(s, c),
{
    broadcast use group_seq_properties;

    let pred = |r: RecordView| r.issuing_country == c;
    let pre = s.subrange(0, p);
    let post = s.subrange(p, s.len() as int);
    assert(s.insert(p, x) =~= pre + (seq![x] + post));
    assert(s =~= pre + post);
    Seq::filter_distributes_over_add(pre, seq![x] + post, pred);
    Seq::filter_distributes_over_add(seq![x], post, pred);
    Seq::filter_distributes_over_add(pre, post, pred);
    reveal_with_fuel(Seq::filter, 2);
    assert(seq![x].drop_last() =~= Seq::<RecordView>::empty());
    assert(seq![x].drop_last().filter(pred) == Seq::<RecordView>::empty().filter(pred));
    if c == x.issuing_country {
        lemma_country_group_absent(post, c);
        assert(seq![x].filter(pred) =~= seq![x]);
        assert(country_group(s.insert(p, x), c) =~= country_group(s, c).push(x));
    } else {
        assert(seq![x].filter(pred) =~= Seq::<RecordView>::empty());
        assert(country_group(s.insert(p, x), c) =~= country_group(s, c));
    }
}

/// The position at which a record is inserted: after every record whose
/// country does not exceed its own, before the rest.
fn insert_position(out: &Vec<CertificateRecord>, rec: &CertificateRecord) -> (p: usize)
    ensures
        p <= out@.len(),
        forall|k: int|
            0 <= k < p ==> lex_le(out@[k]@.issuing_country, rec@.issuing_country),
        p < out@.len() ==> !lex_le(out@[p as int]@.issuing_country, rec@.issuing_country),
{
    let mut p: usize = 0;
    while p < out.len()
        invariant
            p <= out@.len(),
            forall|k: int|
                0 <= k < p ==> lex_le(out@[k]@.issuing_country, rec@.issuing_country),
        decreases out@.len() - p,
    {
        if !str_le(out[p].issuing_country.as_str(), rec.issuing_country.as_str()) {
            return p;
        }
        p = p + 1;
    }
    p
}

/// Orders the records ascending by issuing country while keeping the
/// relative order of records that share a country: the output is sorted,
/// and every country's group is exactly the input's.
pub fn sort_certificates(records: Vec<CertificateRecord>) -> (r: Vec<CertificateRecord>)
    ensures
        sorted_by_country(views_of(r@)),
        forall|c: Seq<char>|
            #[trigger] country_group(views_of(r@), c) == country_group(views_of(records@), c),
{
    let ghost all = records@;
    let mut input = records;
    let mut out: Vec<CertificateRecord> = Vec::new();
    let ghost mut taken: int = 0;
    while input.len() > 0
        invariant
            0 <= taken <= all.len(),
            input@ =~= all.subrange(taken, all.len() as int),
            sorted_by_country(views_of(out@)),
            forall|c: Seq<char>|
                #[trigger] country_group(views_of(out@), c) == country_group(
                    views_of(all.subrange(0, taken)),
                    c,
                ),
        decreases input@.len(),
    {
        let rec = input.remove(0);
        proof {
            assert(input@ =~= all.subrange(taken + 1, all.len() as int));
            assert(rec == all[taken]);
        }
        let p = insert_position(&out, &rec);
        let ghost old_out = out@;
        let ghost s = views_of(old_out);
        let ghost prefix = views_of(all.subrange(0, taken));
        out.insert(p, rec);
        proof {
            assert(views_of(out@) =~= s.insert(p as int, rec@));
            lemma_sorted_insert_ok(s, p as int, rec@);
            assert forall|c: Seq<char>|
                #[trigger] country_group(views_of(out@), c) == country_group(
                    views_of(all.subrange(0, taken + 1)),
                    c,
                ) by {
                lemma_group_step(s, p as int, rec@, c, prefix);
                assert(views_of(all.subrange(0, taken + 1)) =~= prefix.push(rec@));
                lemma_group_push(prefix, rec@, c);
            }
            taken = taken + 1;
        }
    }
    proof {
        assert(all.subrange(0, taken) =~= all);
        assert(views_of(all) =~= views_of(records@));
    }
    out
}

/// Inserting at the position `insert_position` finds keeps the sequence
/// sorted, and every record at or past that position has another country.
proof fn lemma_sorted_insert_ok(s: Seq<RecordView>, p: int, x: RecordView)
    requires
        sorted_by_country(s),
        0 <= p <= s.len(),
        forall|k: int| 0 <= k < p ==> lex_le(s[k].issuing_country, x.issuing_country),
        p < s.len() ==> !lex_le(s[p].issuing_country, x.issuing_country),
    ensures
        sorted_by_country(s.insert(p, x)),
        forall|j: int| p <= j < s.len() ==> s[j].issuing_country != x.issuing_country,
{
    if p < s.len() {
        lemma_lex_le_total(s[p].issuing_country, x.issuing_country);
        assert forall|j: int| p <= j < s.len() implies s[j].issuing_country
            != x.issuing_country by {
            lemma_lex_le_refl(s[j].issuing_country);
            if s[j].issuing_country == x.issuing_country {
                if p < j {
                    assert(lex_le(s[p].issuing_country, s[j].issuing_country));
                }
                assert(lex_le(s[p].issuing_country, x.issuing_country));
            }
        }
        assert forall|j: int| p <= j < s.len() implies lex_le(
            x.issuing_country,
            s[j].issuing_country,
        ) by {
            if p < j {
                lemma_lex_le_trans(x.issuing_country, s[p].issuing_country, s[j].issuing_country);
            }
        }
    }
    let t = s.insert(p, x);
    assert forall|i: int, j: int| 0 <= i < j < t.len() implies lex_le(
        t[i].issuing_country,
        t[j].issuing_country,
    ) by {
        if i < p && j == p {
        } else if i == p && j > p {
        } else if i < p && j > p {
            assert(t[i] == s[i] && t[j] == s[j - 1]);
        } else if i > p || j < p {
            assert(t[i] == (if i < p { s[i] } else { s[i - 1] }));
            assert(t[j] == (if j < p { s[j] } else { s[j - 1] }));
        }
    }
}

/// One step of the accumulating group equality: the inserted record's own
/// group grows by it, every other group is unchanged.
proof fn lemma_group_step(s: Seq<RecordView>, p: int, x: RecordView, c: Seq<char>, prefix: Seq<RecordView>)
    requires
        0 <= p <= s.len(),
        forall|j: int| p <= j < s.len() ==> s[j].issuing_country != x.issuing_country,
        country_group(s, c) == country_group(prefix, c),
    ensures
        c == x.issuing_country ==> country_group(s.insert(p, x), c) == country_group(prefix, c).push(x),
        c != x.issuing_country ==> country_group(s.insert(p, x), c) == country_group(prefix, c),
{
    lemma_country_group_insert(s, p, x, c);
}

/// Appending a record extends its own country's group by it and leaves
/// every other group unchanged.
proof fn lemma_group_push(s: Seq<RecordView>, x: RecordView, c: Seq<char>)
    ensures
        c == x.issuing_country ==> country_group(s.push(x), c) == country_group(s, c).push(x),
        c != x.issuing_country ==> country_group(s.push(x), c) == country_group(s, c),
{
    let pred = |r: RecordView| r.issuing_country == c;
    reveal(Seq::filter);
    assert(s.push(x).drop_last() =~= s);
    if c == x.issuing_country {
        assert(country_group(s.push(x), c) =~= country_group(s, c).push(x));
    } else {
        assert(country_group(s.push(x), c) =~= country_group(s, c));
    }
}

} // verus!
