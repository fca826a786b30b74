//! Decisions around the best-survival-time table: when a finished run
//! improves a stored best, and how the top table is kept ordered.
use vstd::prelude::*;

verus! {

/// How many best times the table keeps.
pub const TOP_SCORES: usize = 5;

/// Entries ordered by survival time, fastest first.
pub open spec fn sorted_scores(s: Seq<(String, u64)>) -> bool {
    forall|i: int, j: int| 0 <= i < j < s.len() ==> (#[trigger] s[i]).1 <= (#[trigger] s[j]).1
}

/// A finished run improves a player's stored best exactly when no best
/// is stored yet or the stored best took longer.
pub fn should_update_high_score(current_best: Option<u64>, secs_alive: u64) -> (r: bool)
    ensures
        r == match current_best {
            Option::None => true,
            Option::Some(best) => best > secs_alive,
        },
{
    match current_best {
        None => true,
        Some(best) => best > secs_alive,
    }
}

/// The stored best of a name: its first entry's time, if any.
pub open spec fn best_of(s: Seq<(String, u64)>, name: Seq<char>) -> Option<u64>
    decreases s.len(),
{
    if s.len() == 0 {
        None
    } else if s[0].0@ == name {
        Some(s[0].1)
    } else {
        best_of(s.drop_first(), name)
    }
}

/// Whether a run of `secs` seconds improves on a stored best.
pub open spec fn improves(best: Option<u64>, secs: u64) -> bool {
    match best {
        Option::None => true,
        Option::Some(b) => b > secs,
    }
}

/// Record a finished run in the best-time table: keep the better time
/// per name, order by time, and keep at most the top entries. Every
/// entry of the new table is either an old entry or the new run; a
/// run that improves its name's best enters the table whenever the
/// table has room, and is dropped only when every retained entry is at
/// least as fast; a run that does not improve leaves it untouched.
pub fn record_high_score(table: &mut Vec<(String, u64)>, name: &String, secs: u64)
    requires
        sorted_scores(old(table)@),
        old(table)@.len() <= TOP_SCORES,
    ensures
        sorted_scores(final(table)@),
        final(table)@.len() <= TOP_SCORES,
        forall|i: int|
            0 <= i < final(table)@.len() ==> old(table)@.contains(#[trigger] final(table)@[i]) || (
            final(table)@[i].1 == secs && final(table)@[i].0@ == name@),
        !improves(best_of(old(table)@, name@), secs) ==> *final(table) == *old(table),
        improves(best_of(old(table)@, name@), secs) && old(table)@.len() < TOP_SCORES
            ==> exists|i: int|
            0 <= i < final(table)@.len() && (#[trigger] final(table)@[i]).1 == secs
                && final(table)@[i].0@ == name@,
        improves(best_of(old(table)@, name@), secs) ==> (exists|i: int|
            0 <= i < final(table)@.len() && (#[trigger] final(table)@[i]).1 == secs
                && final(table)@[i].0@ == name@) || (forall|i: int|
            0 <= i < final(table)@.len() ==> (#[trigger] final(table)@[i]).1 <= secs),
{
    let ghost s0 = table@;
    proof {
        assert(s0.skip(0) =~= s0);
    }
    let mut best: Option<u64> = None;
    let mut i: usize = 0;
    while i < table.len()
        invariant
            i <= s0.len(),
            table@ == s0,
            best_of(s0, name@) == (match best {
                Option::Some(b) => Some(b),
                Option::None => best_of(s0.skip(i as int), name@),
            }),
        decreases s0.len() - i,
    {
        proof {
            assert(s0.skip(i as int).drop_first() =~= s0.skip(i + 1));
            assert(s0.skip(i as int)[0] == s0[i as int]);
        }
        if table[i].0 == *name && best.is_none() {
            best = Some(table[i].1);
        }
        i = i + 1;
    }
    proof {
        assert(s0.skip(s0.len() as int) =~= Seq::<(String, u64)>::empty());
    }
    if !should_update_high_score(best, secs) {
        return ;
    }
    let mut out: Vec<(String, u64)> = Vec::new();
    let mut inserted = false;
    let ghost mut wi: int = 0;
    let mut k: usize = 0;
    while k < table.len()
        invariant
            k <= s0.len(),
            table@ == s0,
            sorted_scores(s0),
            sorted_scores(out@),
            out@.len() <= k + (if inserted {
                1int
            } else {
                0int
            }),
            forall|a: int, m: int|
                0 <= a < out@.len() && k <= m < s0.len() ==> (#[trigger] out@[a]).1 <= (
                #[trigger] s0[m]).1,
            !inserted ==> forall|a: int| 0 <= a < out@.len() ==> (#[trigger] out@[a]).1 < secs,
            inserted ==> 0 <= wi < out@.len() && out@[wi].1 == secs && out@[wi].0@ == name@,
            forall|a: int|
                0 <= a < out@.len() ==> s0.contains(#[trigger] out@[a]) || (out@[a].1 == secs
                    && out@[a].0@ == name@),
        decreases s0.len() - k,
    {
        let entry = &table[k];
        if entry.0 == *name {
            k = k + 1;
            continue ;
        }
        if !inserted && secs <= entry.1 {
            out.push((name.clone(), secs));
            inserted = true;
            proof {
                wi = out@.len() - 1;
            }
        }
        proof {
            assert(s0.contains(s0[k as int]));
        }
        out.push((entry.0.clone(), entry.1));
        k = k + 1;
    }
    if !inserted {
        out.push((name.clone(), secs));
        proof {
            wi = out@.len() - 1;
        }
    }
    while out.len() > TOP_SCORES
        invariant
            sorted_scores(out@),
            out@.len() <= s0.len() + 1,
            forall|a: int|
                0 <= a < out@.len() ==> s0.contains(#[trigger] out@[a]) || (out@[a].1 == secs
                    && out@[a].0@ == name@),
            s0.len() < TOP_SCORES ==> 0 <= wi < out@.len() && out@[wi].1 == secs && out@[wi].0@
                == name@,
            (0 <= wi < out@.len() && out@[wi].1 == secs && out@[wi].0@ == name@) || (forall|a: int|
                0 <= a < out@.len() ==> (#[trigger] out@[a]).1 <= secs),
        decreases out@.len(),
    {
        let ghost pre = out@;
        out.pop();
        proof {
            if wi == pre.len() - 1 && pre[wi].1 == secs && pre[wi].0@ == name@ {
                assert forall|a: int| 0 <= a < out@.len() implies (#[trigger] out@[a]).1
                    <= secs by {
                    assert(pre[a].1 <= pre[wi].1);
                }
            }
        }
    }
    *table = out;
    proof {
        if s0.len() < TOP_SCORES {
            assert(table@[wi].1 == secs && table@[wi].0@ == name@);
        }
    }
}

/// Copy a high-score table, entry for entry.
pub fn copy_scores(v: &Vec<(String, u64)>) -> (r: Vec<(String, u64)>)
    ensures
        r@ == v@,
{
    let mut r: Vec<(String, u64)> = Vec::new();
    let mut i: usize = 0;
    while i < v.len()
        invariant
            i <= v@.len(),
            r@ =~= v@.take(i as int),
        decreases v@.len() - i,
    {
        let e = &v[i];
        r.push((e.0.clone(), e.1));
        proof {
            assert(r@ =~= v@.take(i + 1));
        }
        i = i + 1;
    }
    proof {
        assert(v@.take(v@.len() as int) =~= v@);
    }
    r
}

} // verus!
