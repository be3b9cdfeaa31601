//! Splitting a point total into the bounty priorities that make it up.

use vstd::prelude::*;
use crate::text::{decimal, push_decimal};

verus! {

/// Points awarded for one critical finding.
pub const CRITICAL: i32 = 40;

/// Points awarded for one high finding.
pub const HIGH: i32 = 20;

/// Points awarded for one moderate finding.
pub const MODERATE: i32 = 10;

/// Points awarded for one low finding.
pub const LOW: i32 = 5;

/// How many findings of each priority a point total stands for.
#[derive(Debug, PartialEq, Eq, Structural, Clone, Copy)]
pub struct PointsBreakdown {
    pub critical_bounty: i32,
    pub high_bounty: i32,
    pub moderate_bounty: i32,
    pub low_bounty: i32,
}

/// The greedy split of `points`: as many critical findings as fit, then
/// high, moderate and low ones from what is left each time.
pub open spec fn split_points(points: int) -> PointsBreakdown {
    PointsBreakdown {
        critical_bounty: (points / CRITICAL as int) as i32,
        high_bounty: ((points % CRITICAL as int) / HIGH as int) as i32,
        moderate_bounty: ((points % HIGH as int) / MODERATE as int) as i32,
        low_bounty: ((points % MODERATE as int) / LOW as int) as i32,
    }
}

/// A total can be split when it is positive and a whole number of low
/// findings.
pub open spec fn splits_evenly(points: int) -> bool {
    points > 0 && points % (LOW as int) == 0
}

/// One entry of the rendered breakdown: nothing for a priority that does not
/// occur, the bare label for one finding, the label with the count in
/// brackets for more.
pub open spec fn part_text(label: Seq<char>, count: int) -> Seq<Seq<char>> {
    if count <= 0 {
        seq![]
    } else if count < 2 {
        seq![label]
    } else {
        seq![label + seq!['('] + decimal(count as nat) + seq![')']]
    }
}

/// The parts of `parts`, with `", "` between neighbours.
pub open spec fn join_parts(parts: Seq<Seq<char>>) -> Seq<char>
    decreases parts.len(),
{
    if parts.len() == 0 {
        seq![]
    } else if parts.len() == 1 {
        parts[0]
    } else {
        join_parts(parts.drop_last()) + seq![',', ' '] + parts.last()
    }
}

impl PointsBreakdown {
    /// The labelled parts of this breakdown, highest priority first.
    pub open spec fn parts(self) -> Seq<Seq<char>> {
        part_text("Critical"@, self.critical_bounty as int) + part_text(
            "High"@,
            self.high_bounty as int,
        ) + part_text("Medium"@, self.moderate_bounty as int) + part_text(
            "Low"@,
            self.low_bounty as int,
        )
    }

    /// The rendered text of this breakdown.
    pub open spec fn text(self) -> Seq<char> {
        join_parts(self.parts())
    }

    /// Renders the breakdown, such as `Critical(2), Low`.
    pub fn to_string(&self) -> (s: String)
        ensures
            s@ == self.text(),
    {
        let mut out = String::new();
        let ghost mut done: Seq<Seq<char>> = seq![];
        proof {
            reveal_strlit("Critical");
            reveal_strlit("High");
            reveal_strlit("Medium");
            reveal_strlit("Low");
            assert(out@ =~= join_parts(done));
        }
        push_part(&mut out, Ghost(done), "Critical", self.critical_bounty);
        proof {
            done = done + part_text("Critical"@, self.critical_bounty as int);
        }
        push_part(&mut out, Ghost(done), "High", self.high_bounty);
        proof {
            done = done + part_text("High"@, self.high_bounty as int);
        }
        push_part(&mut out, Ghost(done), "Medium", self.moderate_bounty);
        proof {
            done = done + part_text("Medium"@, self.moderate_bounty as int);
        }
        push_part(&mut out, Ghost(done), "Low", self.low_bounty);
        proof {
            done = done + part_text("Low"@, self.low_bounty as int);
            assert(done =~= self.parts());
        }
        out
    }
}

impl Default for PointsBreakdown {
    fn default() -> (b: PointsBreakdown)
        ensures
            b == (PointsBreakdown {
                critical_bounty: 0,
                high_bounty: 0,
                moderate_bounty: 0,
                low_bounty: 0,
            }),
    {
        PointsBreakdown { critical_bounty: 0, high_bounty: 0, moderate_bounty: 0, low_bounty: 0 }
    }
}

/// Appends the entry for one priority to a rendering that so far holds the
/// parts `done`.
fn push_part(out: &mut String, Ghost(done): Ghost<Seq<Seq<char>>>, label: &str, count: i32)
    requires
        old(out)@ == join_parts(done),
        label@.len() > 0,
        forall|i: int| 0 <= i < done.len() ==> (#[trigger] done[i]).len() > 0,
    ensures
        final(out)@ == join_parts(done + part_text(label@, count as int)),
        forall|i: int|
            0 <= i < (done + part_text(label@, count as int)).len() ==> (#[trigger] (done
                + part_text(label@, count as int))[i]).len() > 0,
{
    if count > 0 {
        let ghost part = part_text(label@, count as int)[0];
        if !out.as_str().is_empty() {
            proof {
                reveal_strlit(", ");
            }
            out.append(", ");
        }
        out.append(label);
        if count >= 2 {
            proof {
                reveal_strlit("(");
                reveal_strlit(")");
            }
            out.append("(");
            push_decimal(out, count as u64);
            out.append(")");
        }
        proof {
            let all = done + part_text(label@, count as int);
            assert(all.drop_last() =~= done);
            assert(all.last() == part);
            lemma_join_empty(done);
            if done.len() == 0 {
                assert(out@ =~= part);
            } else {
                assert(out@ =~= join_parts(done) + seq![',', ' '] + part);
            }
        }
    } else {
        assert(done + part_text(label@, count as int) =~= done);
    }
}

/// A rendering is empty exactly when it has no parts, as long as no part is
/// itself empty.
proof fn lemma_join_empty(parts: Seq<Seq<char>>)
    requires
        forall|i: int| 0 <= i < parts.len() ==> (#[trigger] parts[i]).len() > 0,
    ensures
        (parts.len() == 0) == (join_parts(parts).len() == 0),
{
}

/// Splits `points` into findings by priority.
///
/// The result is `None` when `points` is not positive or is not a multiple
/// of the lowest award.
pub fn calculate_points_breakdown(points: i32) -> (r: Option<PointsBreakdown>)
    ensures
        splits_evenly(points as int) ==> r == Some(split_points(points as int)),
        !splits_evenly(points as int) ==> r.is_none(),
{
    let mut breakdown = PointsBreakdown::default();
    let mut left: i32 = points;
    if left >= CRITICAL {
        breakdown.critical_bounty = left / CRITICAL;
        left = left - breakdown.critical_bounty * CRITICAL;
    }
    if left >= HIGH {
        breakdown.high_bounty = left / HIGH;
        left = left - breakdown.high_bounty * HIGH;
    }
    if left >= MODERATE {
        breakdown.moderate_bounty = left / MODERATE;
        left = left - breakdown.moderate_bounty * MODERATE;
    }
    if left >= LOW {
        breakdown.low_bounty = left / LOW;
        left = left - breakdown.low_bounty * LOW;
    }
    if left != 0 || breakdown == PointsBreakdown::default() {
        return None;
    }
    Some(breakdown)
}

} // verus!
