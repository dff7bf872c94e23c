//! The rebuild planner: qualifying packages partitioned into three
//! duration tiers and rendered as ready-to-run reinstall command lines
//! with tier-specific parallelism.

use vstd::prelude::*;
use crate::record::AuditRecord;
use crate::text::views;

verus! {

/// Durations strictly below this many seconds are Fast.
pub const FAST_LIMIT: u64 = 60;

/// Durations from `FAST_LIMIT` up to strictly below this many seconds are
/// Medium; from here on they are Slow.
pub const SLOW_LIMIT: u64 = 900;

/// The three rebuild tiers, by average build duration.
#[derive(PartialEq, Eq, Structural, Clone, Copy, Debug)]
pub enum DurationTier {
    Fast,
    Medium,
    Slow,
}

/// The tier of a duration: Fast below 60 seconds, Medium from 60 up to
/// below 900, Slow from 900 on.
pub open spec fn spec_tier(d: u64) -> DurationTier {
    if d < FAST_LIMIT {
        DurationTier::Fast
    } else if d < SLOW_LIMIT {
        DurationTier::Medium
    } else {
        DurationTier::Slow
    }
}

/// Computes the tier of one duration.
pub fn tier_of(d: u64) -> (t: DurationTier)
    ensures
        t == spec_tier(d),
{
    if d < FAST_LIMIT {
        DurationTier::Fast
    } else if d < SLOW_LIMIT {
        DurationTier::Medium
    } else {
        DurationTier::Slow
    }
}

/// Tiering is exhaustive and disjoint: every duration lies in exactly one
/// tier, with the boundaries exactly at 60 and 900 seconds.
pub proof fn lemma_tier_partition(d: u64)
    ensures
        spec_tier(d) == DurationTier::Fast <==> d < 60,
        spec_tier(d) == DurationTier::Medium <==> 60 <= d < 900,
        spec_tier(d) == DurationTier::Slow <==> d >= 900,
{
}

/// The identifiers of the records in tier `t`, keeping the input order: a
/// stable partition, never resorted.
pub open spec fn tier_packages(rs: Seq<AuditRecord>, t: DurationTier) -> Seq<Seq<char>>
    decreases rs.len(),
{
    if rs.len() == 0 {
        Seq::empty()
    } else {
        let rest = tier_packages(rs.drop_last(), t);
        if spec_tier(rs.last().duration) == t {
            rest.push(rs.last().pkg@)
        } else {
            rest
        }
    }
}

/// The three tiers partition the records: every record's identifier lands
/// in exactly one tier's list, so the three lists together carry as many
/// identifiers as there are records.
pub proof fn lemma_tiers_partition_records(rs: Seq<AuditRecord>)
    ensures
        tier_packages(rs, DurationTier::Fast).len() + tier_packages(rs, DurationTier::Medium).len()
            + tier_packages(rs, DurationTier::Slow).len() == rs.len(),
    decreases rs.len(),
{
    if rs.len() > 0 {
        lemma_tiers_partition_records(rs.drop_last());
        lemma_tier_partition(rs.last().duration);
    }
}

/// Splits the records' identifiers into the Fast, Medium and Slow tiers,
/// each tier keeping its records' relative input order.
pub fn partition_tiers(records: &Vec<AuditRecord>) -> (r: (Vec<String>, Vec<String>, Vec<String>))
    ensures
        views(r.0@) == tier_packages(records@, DurationTier::Fast),
        views(r.1@) == tier_packages(records@, DurationTier::Medium),
        views(r.2@) == tier_packages(records@, DurationTier::Slow),
{
    let mut fast: Vec<String> = Vec::new();
    let mut medium: Vec<String> = Vec::new();
    let mut slow: Vec<String> = Vec::new();
    proof {
        assert(records@.take(0) =~= Seq::<AuditRecord>::empty());
        assert(views(fast@) =~= tier_packages(records@.take(0), DurationTier::Fast));
        assert(views(medium@) =~= tier_packages(records@.take(0), DurationTier::Medium));
        assert(views(slow@) =~= tier_packages(records@.take(0), DurationTier::Slow));
    }
    let mut i: usize = 0;
    while i < records.len()
        invariant
            i <= records@.len(),
            views(fast@) == tier_packages(records@.take(i as int), DurationTier::Fast),
            views(medium@) == tier_packages(records@.take(i as int), DurationTier::Medium),
            views(slow@) == tier_packages(records@.take(i as int), DurationTier::Slow),
        decreases records@.len() - i,
    {
        let rec = &records[i];
        let name = rec.pkg.clone();
        proof {
            let t = records@.take(i + 1);
            assert(t.drop_last() =~= records@.take(i as int));
            assert(t.last() == records@[i as int]);
            assert(views(fast@.push(name)) =~= views(fast@).push(name@));
            assert(views(medium@.push(name)) =~= views(medium@).push(name@));
            assert(views(slow@.push(name)) =~= views(slow@).push(name@));
        }
        match tier_of(rec.duration) {
            DurationTier::Fast => fast.push(name),
            DurationTier::Medium => medium.push(name),
            DurationTier::Slow => slow.push(name),
        }
        i = i + 1;
    }
    proof {
        assert(records@.take(records@.len() as int) =~= records@);
    }
    (fast, medium, slow)
}

/// The given strings joined with single spaces.
pub open spec fn spec_join(items: Seq<Seq<char>>) -> Seq<char>
    decreases items.len(),
{
    if items.len() == 0 {
        Seq::empty()
    } else if items.len() == 1 {
        items[0]
    } else {
        spec_join(items.drop_last()) + seq![' '] + items.last()
    }
}

/// Joins the identifiers with single spaces.
pub fn join_spaced(items: &Vec<String>) -> (r: String)
    ensures
        r@ == spec_join(views(items@)),
{
    let mut out = String::new();
    proof {
        assert(views(items@).take(0) =~= Seq::<Seq<char>>::empty());
        assert(out@ =~= spec_join(views(items@).take(0)));
        reveal_strlit(" ");
    }
    let mut i: usize = 0;
    while i < items.len()
        invariant
            i <= items@.len(),
            out@ == spec_join(views(items@).take(i as int)),
        decreases items@.len() - i,
    {
        proof {
            let t = views(items@).take(i + 1);
            assert(t.drop_last() =~= views(items@).take(i as int));
            assert(t.last() == items@[i as int]@);
            reveal_strlit(" ");
        }
        if i > 0 {
            out.append(" ");
        }
        out.append(items[i].as_str());
        proof {
            if i == 0 {
                assert(out@ =~= spec_join(views(items@).take(1)));
            }
        }
        i = i + 1;
    }
    proof {
        assert(views(items@).take(views(items@).len() as int) =~= views(items@));
    }
    out
}

/// The invocation opening the fast tier's command: high parallelism,
/// continuing past failures.
pub open spec fn fast_prefix() -> Seq<char> {
    "emerge -av1j16 -l20 --keep-going "@
}

/// The invocation opening the medium tier's command: low parallelism,
/// continuing past failures.
pub open spec fn medium_prefix() -> Seq<char> {
    "emerge -av1j2 -l20 --keep-going "@
}

/// The invocation opening the slow tier's command: serial, continuing past
/// failures.
pub open spec fn slow_prefix() -> Seq<char> {
    "emerge -av1 --keep-going "@
}

/// A tier's full command line: its invocation prefix followed by its
/// space-joined package identifiers; an empty tier yields the bare
/// invocation.
pub open spec fn spec_command(prefix: Seq<char>, pkgs: Seq<Seq<char>>) -> Seq<char> {
    prefix + spec_join(pkgs)
}

/// Renders the three reinstall command lines, fast, medium and slow, in
/// that order; an empty tier still gets its line.
pub fn render_commands(fast: &Vec<String>, medium: &Vec<String>, slow: &Vec<String>) -> (r: (
    String,
    String,
    String,
))
    ensures
        r.0@ == spec_command(fast_prefix(), views(fast@)),
        r.1@ == spec_command(medium_prefix(), views(medium@)),
        r.2@ == spec_command(slow_prefix(), views(slow@)),
{
    let mut f = String::from_str("emerge -av1j16 -l20 --keep-going ");
    f.append(join_spaced(fast).as_str());
    let mut m = String::from_str("emerge -av1j2 -l20 --keep-going ");
    m.append(join_spaced(medium).as_str());
    let mut s = String::from_str("emerge -av1 --keep-going ");
    s.append(join_spaced(slow).as_str());
    (f, m, s)
}

} // verus!
