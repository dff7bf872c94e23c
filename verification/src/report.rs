//! The printed report: one line per qualifying package with its rendered
//! duration, the package's binary files when listing is on, and with
//! rebuild output the three tier command lines after the report.

use vstd::prelude::*;
use crate::plan::DurationTier;
use crate::plan::fast_prefix;
use crate::plan::medium_prefix;
use crate::plan::slow_prefix;
use crate::plan::partition_tiers;
use crate::plan::render_commands;
use crate::plan::spec_command;
use crate::plan::tier_packages;
use crate::record::AuditRecord;
use crate::record::sort_by_duration;
use crate::record::sort_records;
use crate::text::push_decimal;
use crate::text::spec_dec;
use crate::text::views;

verus! {

/// A duration rendered for the report: from one minute on as
/// minutes′seconds″, else as plain seconds with an `s` suffix.
pub open spec fn spec_print_time(sec: u64) -> Seq<char> {
    if sec < 60 {
        spec_dec(sec as nat) + seq!['s']
    } else {
        spec_dec((sec / 60) as nat) + seq!['\u{2032}'] + spec_dec((sec % 60) as nat)
            + seq!['\u{2033}']
    }
}

/// Renders a duration: `125` becomes minutes and seconds, `59` stays
/// plain seconds.
pub fn print_time(sec: u64) -> (r: String)
    ensures
        r@ == spec_print_time(sec),
{
    let min = sec / 60;
    let mut out = String::new();
    if min != 0 {
        let rem = sec % 60;
        push_decimal(&mut out, min);
        out.append("\u{2032}");
        push_decimal(&mut out, rem);
        out.append("\u{2033}");
        proof {
            reveal_strlit("\u{2032}");
            reveal_strlit("\u{2033}");
            assert(out@ =~= spec_print_time(sec));
        }
    } else {
        push_decimal(&mut out, sec);
        out.append("s");
        proof {
            reveal_strlit("s");
            assert(out@ =~= spec_print_time(sec));
        }
    }
    out
}

/// The report lines of one record: its identifier with its rendered
/// duration when timing is on, followed by its listed binary file paths
/// when listing is on.
pub open spec fn spec_record_lines(r: AuditRecord, time: bool, file: bool) -> Seq<Seq<char>> {
    let head = if time {
        r.pkg@ + seq![':', ' '] + spec_print_time(r.duration)
    } else {
        r.pkg@
    };
    seq![head] + if file {
        views(r.files@)
    } else {
        Seq::<Seq<char>>::empty()
    }
}

/// The report lines of a record sequence, in sequence order.
pub open spec fn spec_report(rs: Seq<AuditRecord>, time: bool, file: bool) -> Seq<Seq<char>>
    decreases rs.len(),
{
    if rs.len() == 0 {
        Seq::empty()
    } else {
        spec_report(rs.drop_last(), time, file) + spec_record_lines(rs.last(), time, file)
    }
}

/// Renders the report lines of the given records, in their given order:
/// the identifier with its rendered duration when timing is on, the bare
/// identifier otherwise.
pub fn render_report(records: &Vec<AuditRecord>, time: bool, file: bool) -> (r: Vec<String>)
    ensures
        views(r@) == spec_report(records@, time, file),
{
    let mut out: Vec<String> = Vec::new();
    proof {
        assert(records@.take(0) =~= Seq::<AuditRecord>::empty());
        assert(views(out@) =~= spec_report(records@.take(0), time, file));
        reveal_strlit(": ");
    }
    let mut i: usize = 0;
    while i < records.len()
        invariant
            i <= records@.len(),
            views(out@) == spec_report(records@.take(i as int), time, file),
        decreases records@.len() - i,
    {
        let rec = &records[i];
        let mut line = rec.pkg.clone();
        if time {
            line.append(": ");
            line.append(print_time(rec.duration).as_str());
        }
        proof {
            reveal_strlit(": ");
            if time {
                assert(line@ =~= rec.pkg@ + seq![':', ' '] + spec_print_time(rec.duration));
            }
            assert(views(out@.push(line)) =~= views(out@).push(line@));
        }
        out.push(line);
        let ghost mid = out@;
        if file {
            let mut j: usize = 0;
            while j < rec.files.len()
                invariant
                    j <= rec.files@.len(),
                    views(out@) == views(mid) + views(rec.files@).take(j as int),
                decreases rec.files@.len() - j,
            {
                let f = rec.files[j].clone();
                proof {
                    assert(views(rec.files@).take(j + 1) =~= views(rec.files@).take(
                        j as int,
                    ).push(rec.files@[j as int]@));
                    assert(views(out@.push(f)) =~= views(out@).push(f@));
                    assert(views(mid) + views(rec.files@).take(j as int).push(f@) =~= (views(mid)
                        + views(rec.files@).take(j as int)).push(f@));
                }
                out.push(f);
                j = j + 1;
            }
            proof {
                assert(views(rec.files@).take(rec.files@.len() as int) =~= views(rec.files@));
            }
        } else {
            proof {
                assert(views(out@) =~= views(mid) + Seq::<Seq<char>>::empty());
            }
        }
        proof {
            let t = records@.take(i + 1);
            assert(t.drop_last() =~= records@.take(i as int));
            assert(t.last() == records@[i as int]);
            if file {
                assert(views(out@) =~= spec_report(records@.take(i as int), time, file)
                    + spec_record_lines(records@[i as int], time, file));
            } else {
                assert(views(out@) =~= spec_report(records@.take(i as int), time, file)
                    + spec_record_lines(records@[i as int], time, file));
            }
        }
        i = i + 1;
    }
    proof {
        assert(records@.take(records@.len() as int) =~= records@);
    }
    out
}

/// Every output line of a run: nothing at all unless timing or rebuild
/// output was requested; else the duration-sorted report, and with rebuild
/// the three tier command lines, fast, medium, slow, after it.
pub open spec fn spec_output(rs: Seq<AuditRecord>, time: bool, file: bool, rebuild: bool) -> Seq<
    Seq<char>,
> {
    if !time && !rebuild {
        Seq::empty()
    } else {
        let sorted = sort_by_duration(rs);
        spec_report(sorted, true, file) + if rebuild {
            seq![
                spec_command(fast_prefix(), tier_packages(sorted, DurationTier::Fast)),
                spec_command(medium_prefix(), tier_packages(sorted, DurationTier::Medium)),
                spec_command(slow_prefix(), tier_packages(sorted, DurationTier::Slow)),
            ]
        } else {
            Seq::<Seq<char>>::empty()
        }
    }
}

/// The reporting stage in one step: sorts the qualifying records by
/// duration (stably) and renders every output line of the run.
pub fn audit_output(records: Vec<AuditRecord>, time: bool, file: bool, rebuild: bool) -> (r: Vec<
    String,
>)
    ensures
        views(r@) == spec_output(records@, time, file, rebuild),
{
    if !time && !rebuild {
        let out: Vec<String> = Vec::new();
        proof {
            assert(views(out@) =~= spec_output(records@, time, file, rebuild));
        }
        return out;
    }
    let ghost all = records@;
    let sorted = sort_records(records);
    let mut lines = render_report(&sorted, true, file);
    if rebuild {
        let (fast, medium, slow) = partition_tiers(&sorted);
        let (cf, cm, cs) = render_commands(&fast, &medium, &slow);
        proof {
            assert(views(lines@.push(cf).push(cm).push(cs)) =~= views(lines@).push(cf@).push(
                cm@,
            ).push(cs@));
            assert(views(lines@).push(cf@).push(cm@).push(cs@) =~= spec_output(
                all,
                time,
                file,
                rebuild,
            ));
        }
        lines.push(cf);
        lines.push(cm);
        lines.push(cs);
    } else {
        proof {
            assert(views(lines@) =~= spec_output(all, time, file, rebuild));
        }
    }
    lines
}

} // verus!
