//! Audit records and the duration-ordered report sequence: a stable sort
//! by build duration, records of equal duration keeping their input order.

use vstd::prelude::*;

verus! {

/// One qualifying package: its identifier, its binary file paths (empty
/// unless listing was requested) and its average build duration in whole
/// seconds (zero unless timing was requested).
pub struct AuditRecord {
    pub pkg: String,
    pub files: Vec<String>,
    pub duration: u64,
}

/// `r` inserted into `s` just before the first record of greater duration,
/// that is after every duration peer already present.
pub open spec fn insert_by_duration(r: AuditRecord, s: Seq<AuditRecord>) -> Seq<AuditRecord>
    decreases s.len(),
{
    if s.len() == 0 {
        seq![r]
    } else if s[0].duration <= r.duration {
        seq![s[0]] + insert_by_duration(r, s.drop_first())
    } else {
        seq![r] + s
    }
}

/// Records of `rest` drawn in order and each inserted into `acc` by
/// duration.
pub open spec fn sort_aux(acc: Seq<AuditRecord>, rest: Seq<AuditRecord>) -> Seq<AuditRecord>
    decreases rest.len(),
{
    if rest.len() == 0 {
        acc
    } else {
        sort_aux(insert_by_duration(rest[0], acc), rest.drop_first())
    }
}

/// The stable sort of `s` by duration.
pub open spec fn sort_by_duration(s: Seq<AuditRecord>) -> Seq<AuditRecord> {
    sort_aux(Seq::empty(), s)
}

/// Durations never decrease along the sequence.
pub open spec fn sorted_by_duration(s: Seq<AuditRecord>) -> bool {
    forall|i: int, j: int| 0 <= i <= j < s.len() ==> s[i].duration <= s[j].duration
}

/// The subsequence of records with duration exactly `d`, in order.
pub open spec fn with_duration(s: Seq<AuditRecord>, d: u64) -> Seq<AuditRecord>
    decreases s.len(),
{
    if s.len() == 0 {
        Seq::empty()
    } else if s[0].duration == d {
        seq![s[0]] + with_duration(s.drop_first(), d)
    } else {
        with_duration(s.drop_first(), d)
    }
}

/// A sequence without records of duration `d` has an empty `d`
/// subsequence.
proof fn lemma_with_duration_absent(s: Seq<AuditRecord>, d: u64)
    requires
        forall|i: int| 0 <= i < s.len() ==> s[i].duration != d,
    ensures
        with_duration(s, d) == Seq::<AuditRecord>::empty(),
    decreases s.len(),
{
    if s.len() > 0 {
        assert(s[0].duration != d);
        assert(forall|i: int| 0 <= i < s.drop_first().len() ==> s.drop_first()[i].duration != d);
        lemma_with_duration_absent(s.drop_first(), d);
    }
}

/// Inserting into a sorted sequence keeps it sorted, grows it by one, and
/// appends the record to its own duration class while leaving every other
/// class unchanged.
proof fn lemma_insert_by_duration(r: AuditRecord, s: Seq<AuditRecord>)
    requires
        sorted_by_duration(s),
    ensures
        insert_by_duration(r, s).len() == s.len() + 1,
        sorted_by_duration(insert_by_duration(r, s)),
        forall|d: u64|
            #[trigger] with_duration(insert_by_duration(r, s), d) == if d == r.duration {
                with_duration(s, d).push(r)
            } else {
                with_duration(s, d)
            },
    decreases s.len(),
{
    let out = insert_by_duration(r, s);
    if s.len() == 0 {
        assert forall|d: u64| #[trigger]
            with_duration(out, d) == if d == r.duration {
                with_duration(s, d).push(r)
            } else {
                with_duration(s, d)
            } by {
            assert(out == seq![r]);
            assert(out.drop_first() =~= Seq::<AuditRecord>::empty());
            assert(with_duration(Seq::<AuditRecord>::empty(), d) == Seq::<AuditRecord>::empty());
            if d == r.duration {
                assert(with_duration(out, d) =~= with_duration(s, d).push(r));
            } else {
                assert(with_duration(out, d) =~= with_duration(s, d));
            }
        }
    } else if s[0].duration <= r.duration {
        let rest = s.drop_first();
        assert(sorted_by_duration(rest)) by {
            assert(forall|i: int, j: int|
                0 <= i <= j < rest.len() ==> rest[i] == s[i + 1] && rest[j] == s[j + 1]);
        }
        lemma_insert_by_duration(r, rest);
        let sub = insert_by_duration(r, rest);
        assert(out == seq![s[0]] + sub);
        assert(sorted_by_duration(out)) by {
            assert(forall|k: int| 0 <= k < sub.len() ==> out[k + 1] == sub[k]);
            assert(out[0] == s[0]);
            assert forall|i: int, j: int| 0 <= i <= j < out.len() implies out[i].duration
                <= out[j].duration by {
                if i == 0 && j > 0 {
                    let x = sub[j - 1];
                    if j - 1 < rest.len() && sub[j - 1] == rest[j - 1] {
                    }
                    assert(forall|k: int|
                        0 <= k < rest.len() ==> s[0].duration <= #[trigger] rest[k].duration);
                    lemma_insert_members(r, rest);
                    assert(s[0].duration <= out[j].duration);
                }
            }
        }
        assert forall|d: u64| #[trigger]
            with_duration(out, d) == if d == r.duration {
                with_duration(s, d).push(r)
            } else {
                with_duration(s, d)
            } by {
            assert(out[0] == s[0]);
            assert(out.drop_first() =~= sub);
            assert(with_duration(out, d) == if s[0].duration == d {
                seq![s[0]] + with_duration(sub, d)
            } else {
                with_duration(sub, d)
            });
            assert(with_duration(s, d) == if s[0].duration == d {
                seq![s[0]] + with_duration(rest, d)
            } else {
                with_duration(rest, d)
            });
            if d == r.duration {
                assert(with_duration(sub, d) == with_duration(rest, d).push(r));
                if s[0].duration == d {
                    assert(seq![s[0]] + with_duration(rest, d).push(r) =~= (seq![s[0]]
                        + with_duration(rest, d)).push(r));
                }
            }
        }
    } else {
        assert(out == seq![r] + s);
        assert(sorted_by_duration(out)) by {
            assert(forall|k: int| 0 <= k < s.len() ==> out[k + 1] == s[k]);
            assert(forall|k: int|
                0 <= k < s.len() ==> s[0].duration <= #[trigger] s[k].duration);
        }
        assert forall|d: u64| #[trigger]
            with_duration(out, d) == if d == r.duration {
                with_duration(s, d).push(r)
            } else {
                with_duration(s, d)
            } by {
            assert(out[0] == r);
            assert(out.drop_first() =~= s);
            if d == r.duration {
                assert(forall|i: int|
                    0 <= i < s.len() ==> #[trigger] s[i].duration >= s[0].duration
                        > r.duration);
                lemma_with_duration_absent(s, d);
                assert(with_duration(out, d) == seq![r] + with_duration(s, d));
                assert(seq![r] + Seq::<AuditRecord>::empty() =~= Seq::<
                    AuditRecord,
                >::empty().push(r));
            }
        }
    }
}

/// Every record of an insertion's result is the inserted record or one of
/// the sequence it went into.
proof fn lemma_insert_members(r: AuditRecord, s: Seq<AuditRecord>)
    ensures
        insert_by_duration(r, s).len() == s.len() + 1,
        forall|k: int|
            0 <= k < insert_by_duration(r, s).len() ==> #[trigger] insert_by_duration(r, s)[k] == r
                || exists|m: int| 0 <= m < s.len() && insert_by_duration(r, s)[k] == s[m],
    decreases s.len(),
{
    let out = insert_by_duration(r, s);
    if s.len() == 0 {
    } else if s[0].duration <= r.duration {
        lemma_insert_members(r, s.drop_first());
        let sub = insert_by_duration(r, s.drop_first());
        assert forall|k: int| 0 <= k < out.len() implies out[k] == r || exists|m: int|
            0 <= m < s.len() && out[k] == s[m] by {
            if k == 0 {
                assert(out[0] == s[0]);
            } else {
                assert(out[k] == sub[k - 1]);
                if sub[k - 1] == r {
                } else {
                    let m = choose|m: int|
                        0 <= m < s.drop_first().len() && sub[k - 1] == s.drop_first()[m];
                    assert(s.drop_first()[m] == s[m + 1]);
                }
            }
        }
    } else {
        assert forall|k: int| 0 <= k < out.len() implies out[k] == r || exists|m: int|
            0 <= m < s.len() && out[k] == s[m] by {
            if k > 0 {
                assert(out[k] == s[k - 1]);
            }
        }
    }
}

/// Sorting's whole effect: the result of `sort_aux` is sorted when the
/// accumulator is, and each duration class is the accumulator's class
/// followed by the input's class in input order.
proof fn lemma_sort_aux(acc: Seq<AuditRecord>, rest: Seq<AuditRecord>)
    requires
        sorted_by_duration(acc),
    ensures
        sort_aux(acc, rest).len() == acc.len() + rest.len(),
        sorted_by_duration(sort_aux(acc, rest)),
        forall|d: u64|
            #[trigger] with_duration(sort_aux(acc, rest), d) == with_duration(acc, d)
                + with_duration(rest, d),
    decreases rest.len(),
{
    if rest.len() == 0 {
        assert forall|d: u64| #[trigger]
            with_duration(sort_aux(acc, rest), d) == with_duration(acc, d) + with_duration(
                rest,
                d,
            ) by {
            assert(with_duration(rest, d) == Seq::<AuditRecord>::empty());
            assert(with_duration(acc, d) + Seq::<AuditRecord>::empty() =~= with_duration(acc, d));
        }
    } else {
        let r = rest[0];
        lemma_insert_by_duration(r, acc);
        let acc2 = insert_by_duration(r, acc);
        lemma_sort_aux(acc2, rest.drop_first());
        assert(sort_aux(acc, rest) == sort_aux(acc2, rest.drop_first()));
        assert forall|d: u64| #[trigger]
            with_duration(sort_aux(acc, rest), d) == with_duration(acc, d) + with_duration(
                rest,
                d,
            ) by {
            assert(with_duration(sort_aux(acc2, rest.drop_first()), d) == with_duration(acc2, d)
                + with_duration(rest.drop_first(), d));
            assert(with_duration(rest, d) == if r.duration == d {
                seq![r] + with_duration(rest.drop_first(), d)
            } else {
                with_duration(rest.drop_first(), d)
            });
            if d == r.duration {
                assert(with_duration(acc2, d) == with_duration(acc, d).push(r));
                assert(with_duration(acc, d).push(r) + with_duration(rest.drop_first(), d)
                    =~= with_duration(acc, d) + (seq![r] + with_duration(rest.drop_first(), d)));
            }
        }
    }
}

/// Insertion only adds the inserted record to the collection.
proof fn lemma_insert_multiset(r: AuditRecord, s: Seq<AuditRecord>)
    ensures
        insert_by_duration(r, s).to_multiset() == s.to_multiset().insert(r),
    decreases s.len(),
{
    broadcast use vstd::seq_lib::group_to_multiset_ensures;

    let out = insert_by_duration(r, s);
    if s.len() == 0 {
        assert(seq![r] =~= Seq::<AuditRecord>::empty().push(r));
        assert(out.to_multiset() =~= s.to_multiset().insert(r));
    } else if s[0].duration <= r.duration {
        let rest = s.drop_first();
        lemma_insert_multiset(r, rest);
        let sub = insert_by_duration(r, rest);
        vstd::seq_lib::lemma_multiset_commutative(seq![s[0]], sub);
        vstd::seq_lib::lemma_multiset_commutative(seq![s[0]], rest);
        assert(seq![s[0]] + rest =~= s);
        assert(out.to_multiset() =~= s.to_multiset().insert(r));
    } else {
        vstd::seq_lib::lemma_multiset_commutative(seq![r], s);
        assert(seq![r] =~= Seq::<AuditRecord>::empty().push(r));
        assert(out.to_multiset() =~= s.to_multiset().insert(r));
    }
}

/// `sort_aux` only pours the rest into the accumulator.
proof fn lemma_sort_aux_multiset(acc: Seq<AuditRecord>, rest: Seq<AuditRecord>)
    ensures
        sort_aux(acc, rest).to_multiset() == acc.to_multiset().add(rest.to_multiset()),
    decreases rest.len(),
{
    broadcast use vstd::seq_lib::group_to_multiset_ensures;

    if rest.len() == 0 {
        assert(sort_aux(acc, rest).to_multiset() =~= acc.to_multiset().add(rest.to_multiset()));
    } else {
        let r = rest[0];
        lemma_insert_multiset(r, acc);
        lemma_sort_aux_multiset(insert_by_duration(r, acc), rest.drop_first());
        vstd::seq_lib::lemma_multiset_commutative(seq![r], rest.drop_first());
        assert(seq![r] + rest.drop_first() =~= rest);
        assert(seq![r] =~= Seq::<AuditRecord>::empty().push(r));
        assert(sort_aux(acc, rest).to_multiset() =~= acc.to_multiset().add(rest.to_multiset()));
    }
}

/// The report order's laws: sorting by duration yields non-decreasing
/// durations, keeps exactly the given records, and keeps each duration
/// class in input order — records of equal duration are never reordered.
pub proof fn lemma_sort_by_duration(s: Seq<AuditRecord>)
    ensures
        sort_by_duration(s).len() == s.len(),
        sort_by_duration(s).to_multiset() == s.to_multiset(),
        sorted_by_duration(sort_by_duration(s)),
        forall|d: u64|
            #[trigger] with_duration(sort_by_duration(s), d) == with_duration(s, d),
{
    lemma_sort_aux(Seq::empty(), s);
    lemma_sort_aux_multiset(Seq::empty(), s);
    assert(sort_by_duration(s).to_multiset() =~= s.to_multiset()) by {
        broadcast use vstd::seq_lib::group_to_multiset_ensures;

        assert(Seq::<AuditRecord>::empty().to_multiset().add(s.to_multiset()) =~= s.to_multiset());
    }
    assert forall|d: u64| #[trigger]
        with_duration(sort_by_duration(s), d) == with_duration(s, d) by {
        assert(with_duration(Seq::empty(), d) == Seq::<AuditRecord>::empty());
        assert(Seq::<AuditRecord>::empty() + with_duration(s, d) =~= with_duration(s, d));
    }
}

/// The position where `r` belongs in `s`: after the leading run of records
/// of duration not above its own.
proof fn lemma_insert_at(r: AuditRecord, s: Seq<AuditRecord>, p: int)
    requires
        0 <= p <= s.len(),
        forall|j: int| 0 <= j < p ==> s[j].duration <= r.duration,
        p == s.len() || s[p].duration > r.duration,
    ensures
        insert_by_duration(r, s) == s.insert(p, r),
    decreases p,
{
    if p == 0 {
        if s.len() == 0 {
            assert(insert_by_duration(r, s) =~= s.insert(0, r));
        } else {
            assert(insert_by_duration(r, s) == seq![r] + s);
            assert(seq![r] + s =~= s.insert(0, r));
        }
    } else {
        assert(s[0].duration <= r.duration);
        lemma_insert_at(r, s.drop_first(), p - 1);
        assert(insert_by_duration(r, s) == seq![s[0]] + s.drop_first().insert(p - 1, r));
        assert(seq![s[0]] + s.drop_first().insert(p - 1, r) =~= s.insert(p, r));
    }
}

/// Sorts the records ascending by duration; the sort is stable, records of
/// one duration keeping the order they came in.
pub fn sort_records(records: Vec<AuditRecord>) -> (r: Vec<AuditRecord>)
    ensures
        r@ == sort_by_duration(records@),
{
    let ghost all = records@;
    let mut rest = records;
    let mut out: Vec<AuditRecord> = Vec::new();
    proof {
        assert(out@ =~= Seq::<AuditRecord>::empty());
    }
    while rest.len() > 0
        invariant
            sort_aux(out@, rest@) == sort_by_duration(all),
        decreases rest@.len(),
    {
        let ghost out0 = out@;
        let ghost rest0 = rest@;
        let r = rest.remove(0);
        let mut p: usize = 0;
        let mut stop = false;
        while p < out.len() && !stop
            invariant
                p <= out@.len(),
                forall|j: int| 0 <= j < p ==> out@[j].duration <= r.duration,
                stop ==> p < out@.len() && out@[p as int].duration > r.duration,
                out@ == out0,
            decreases out@.len() - p + (if stop { 0int } else { 1int }),
        {
            if out[p].duration > r.duration {
                stop = true;
            } else {
                p = p + 1;
            }
        }
        proof {
            lemma_insert_at(r, out0, p as int);
            assert(rest0[0] == r);
            assert(rest0.drop_first() =~= rest@);
            assert(sort_aux(out0, rest0) == sort_aux(insert_by_duration(r, out0), rest@));
        }
        out.insert(p, r);
        proof {
            assert(out@ =~= out0.insert(p as int, r));
        }
    }
    proof {
        assert(sort_aux(out@, rest@) == out@);
    }
    out
}

} // verus!
