//! Prompt-ready rendering of ranked context.
use vstd::prelude::*;

use crate::models::{
    ConstraintRecord, ConstraintView, FactRecord, FactView, FailurePatternRecord,
    FailurePatternView, ObservationRecord, ObservationView, PlaybookRecord, PlaybookView, views,
};
use crate::text::{decimal, owned, push_decimal, push_str, texts};

verus! {

/// The parts joined by a separator.
pub open spec fn join(parts: Seq<Seq<char>>, sep: Seq<char>) -> Seq<char>
    decreases parts.len(),
{
    if parts.len() == 0 {
        seq![]
    } else if parts.len() == 1 {
        parts[0]
    } else {
        join(parts.drop_last(), sep) + sep + parts.last()
    }
}

/// The strings joined by a separator (std `join` on a slice of strings).
pub fn join_texts(parts: &Vec<String>, sep: &str) -> (r: String)
    ensures
        r@ == join(texts(parts@), sep@),
{
    let ghost ps = texts(parts@);
    let mut r = String::new();
    let mut i: usize = 0;
    while i < parts.len()
        invariant
            ps == texts(parts@),
            0 <= i <= parts@.len(),
            r@ == join(ps.subrange(0, i as int), sep@),
        decreases parts.len() - i,
    {
        if i > 0 {
            push_str(&mut r, sep);
        }
        push_str(&mut r, parts[i].as_str());
        proof {
            let q = ps.subrange(0, i + 1);
            assert(q.drop_last() =~= ps.subrange(0, i as int));
            if i == 0 {
                assert(r@ =~= q[0]);
            }
        }
        i = i + 1;
    }
    assert(ps.subrange(0, parts@.len() as int) =~= ps);
    r
}

/// The bullet for a fact: `<title>: <content>`.
pub open spec fn fact_bullet(f: FactView) -> Seq<char> {
    f.title + ": "@ + f.content
}

/// The bullet for a constraint: `[constraint] <title>: <content>`.
pub open spec fn constraint_bullet(c: ConstraintView) -> Seq<char> {
    "[constraint] "@ + c.title + ": "@ + c.content
}

/// The bullet for a failure pattern: `[failure x<count>] <family>: <pattern>`.
pub open spec fn failure_bullet(p: FailurePatternView) -> Seq<char> {
    "[failure x"@ + decimal(p.occurrence_count as nat) + "] "@ + p.error_family + ": "@
        + p.pattern
}

/// The bullet for a playbook: `<title>: <steps joined by "; ">`.
pub open spec fn playbook_bullet(p: PlaybookView) -> Seq<char> {
    p.title + ": "@ + join(p.steps, "; "@)
}

/// The bullet for an observation: its content.
pub open spec fn observation_bullet(o: ObservationView) -> Seq<char> {
    o.content
}

/// The bullets of the recurring failure patterns (those seen more than
/// once), in order; a pattern seen once gives none.
pub open spec fn failure_bullets(ps: Seq<FailurePatternView>) -> Seq<Seq<char>>
    decreases ps.len(),
{
    if ps.len() == 0 {
        seq![]
    } else {
        let rest = failure_bullets(ps.drop_last());
        if ps.last().occurrence_count > 1 {
            rest.push(failure_bullet(ps.last()))
        } else {
            rest
        }
    }
}

/// All bullets, in order of importance: facts, constraints, recurring failure
/// patterns, playbooks, observations.
pub open spec fn all_bullets(
    facts: Seq<FactView>,
    playbooks: Seq<PlaybookView>,
    observations: Seq<ObservationView>,
    constraints: Seq<ConstraintView>,
    failure_patterns: Seq<FailurePatternView>,
) -> Seq<Seq<char>> {
    facts.map_values(|f: FactView| fact_bullet(f)) + constraints.map_values(
        |c: ConstraintView| constraint_bullet(c),
    ) + failure_bullets(failure_patterns) + playbooks.map_values(|p: PlaybookView| playbook_bullet(p)) + observations.map_values(
        |o: ObservationView| observation_bullet(o),
    )
}

/// The most bullets a prompt context holds.
pub const MAX_BULLETS: usize = 6;

/// The prompt context: the first six bullets, each as a `- ` line, or a fixed
/// note when there is nothing to say.
pub open spec fn spec_prompt_context(bullets: Seq<Seq<char>>) -> Seq<char> {
    if bullets.len() == 0 {
        "No relevant stored context."@
    } else {
        let shown = if bullets.len() > MAX_BULLETS {
            bullets.subrange(0, MAX_BULLETS as int)
        } else {
            bullets
        };
        join(shown.map_values(|b: Seq<char>| "- "@ + b), "\n"@)
    }
}

fn push_bullet(out: &mut Vec<String>, b: String)
    ensures
        texts(final(out)@) == texts(old(out)@).push(b@),
{
    out.push(b);
    assert(texts(out@) =~= texts(old(out)@).push(b@));
}

/// A compact hint text built from ranked records: at most six bullets ordered
/// facts, constraints, recurring failure patterns (with their count),
/// playbooks, observations.
pub fn format_prompt_context(
    facts: &Vec<FactRecord>,
    playbooks: &Vec<PlaybookRecord>,
    observations: &Vec<ObservationRecord>,
    constraints: &Vec<ConstraintRecord>,
    failure_patterns: &Vec<FailurePatternRecord>,
) -> (r: String)
    ensures
        r@ == spec_prompt_context(
            all_bullets(
                views(facts@),
                views(playbooks@),
                views(observations@),
                views(constraints@),
                views(failure_patterns@),
            ),
        ),
{
    let ghost fv = views(facts@);
    let ghost pv = views(playbooks@);
    let ghost ov = views(observations@);
    let ghost cv = views(constraints@);
    let ghost xv = views(failure_patterns@);
    let mut bullets: Vec<String> = Vec::new();
    let mut i: usize = 0;
    while i < facts.len()
        invariant
            fv == views(facts@),
            0 <= i <= facts@.len(),
            texts(bullets@) =~= fv.subrange(0, i as int).map_values(|f: FactView| fact_bullet(f)),
        decreases facts.len() - i,
    {
        let f = &facts[i];
        let mut b = owned(f.title.as_str());
        push_str(&mut b, ": ");
        push_str(&mut b, f.content.as_str());
        push_bullet(&mut bullets, b);
        assert(fv.subrange(0, i + 1) =~= fv.subrange(0, i as int).push(fv[i as int]));
        i = i + 1;
    }
    let ghost b1 = fv.map_values(|f: FactView| fact_bullet(f));
    assert(fv.subrange(0, facts@.len() as int) =~= fv);
    i = 0;
    while i < constraints.len()
        invariant
            cv == views(constraints@),
            0 <= i <= constraints@.len(),
            texts(bullets@) =~= b1 + cv.subrange(0, i as int).map_values(
                |c: ConstraintView| constraint_bullet(c),
            ),
        decreases constraints.len() - i,
    {
        let c = &constraints[i];
        let mut b = owned("[constraint] ");
        push_str(&mut b, c.title.as_str());
        push_str(&mut b, ": ");
        push_str(&mut b, c.content.as_str());
        push_bullet(&mut bullets, b);
        assert(cv.subrange(0, i + 1) =~= cv.subrange(0, i as int).push(cv[i as int]));
        i = i + 1;
    }
    let ghost b2 = b1 + cv.map_values(|c: ConstraintView| constraint_bullet(c));
    assert(cv.subrange(0, constraints@.len() as int) =~= cv);
    i = 0;
    while i < failure_patterns.len()
        invariant
            xv == views(failure_patterns@),
            0 <= i <= failure_patterns@.len(),
            texts(bullets@) =~= b2 + failure_bullets(xv.subrange(0, i as int)),
        decreases failure_patterns.len() - i,
    {
        let p = &failure_patterns[i];
        if p.occurrence_count > 1 {
            let mut b = owned("[failure x");
            push_decimal(&mut b, p.occurrence_count as u64);
            push_str(&mut b, "] ");
            push_str(&mut b, p.error_family.as_str());
            push_str(&mut b, ": ");
            push_str(&mut b, p.pattern.as_str());
            push_bullet(&mut bullets, b);
        }
        assert(xv.subrange(0, i + 1).drop_last() =~= xv.subrange(0, i as int));
        assert(xv.subrange(0, i + 1).last() == xv[i as int]);
        i = i + 1;
    }
    let ghost b3 = b2 + failure_bullets(xv);
    assert(xv.subrange(0, failure_patterns@.len() as int) =~= xv);
    i = 0;
    while i < playbooks.len()
        invariant
            pv == views(playbooks@),
            0 <= i <= playbooks@.len(),
            texts(bullets@) =~= b3 + pv.subrange(0, i as int).map_values(
                |p: PlaybookView| playbook_bullet(p),
            ),
        decreases playbooks.len() - i,
    {
        let p = &playbooks[i];
        let steps = join_texts(&p.steps, "; ");
        assert(texts(p.steps@) =~= p.steps.deep_view());
        let mut b = owned(p.title.as_str());
        push_str(&mut b, ": ");
        push_str(&mut b, steps.as_str());
        push_bullet(&mut bullets, b);
        assert(pv.subrange(0, i + 1) =~= pv.subrange(0, i as int).push(pv[i as int]));
        i = i + 1;
    }
    let ghost b4 = b3 + pv.map_values(|p: PlaybookView| playbook_bullet(p));
    assert(pv.subrange(0, playbooks@.len() as int) =~= pv);
    i = 0;
    while i < observations.len()
        invariant
            ov == views(observations@),
            0 <= i <= observations@.len(),
            texts(bullets@) =~= b4 + ov.subrange(0, i as int).map_values(
                |o: ObservationView| observation_bullet(o),
            ),
        decreases observations.len() - i,
    {
        let o = &observations[i];
        push_bullet(&mut bullets, owned(o.content.as_str()));
        assert(ov.subrange(0, i + 1) =~= ov.subrange(0, i as int).push(ov[i as int]));
        i = i + 1;
    }
    assert(ov.subrange(0, observations@.len() as int) =~= ov);
    let ghost all = texts(bullets@);
    assert(all =~= all_bullets(fv, pv, ov, cv, xv));
    if bullets.len() == 0 {
        return owned("No relevant stored context.");
    }
    bullets.truncate(MAX_BULLETS);
    let ghost shown = texts(bullets@);
    assert(shown =~= if all.len() > MAX_BULLETS {
        all.subrange(0, MAX_BULLETS as int)
    } else {
        all
    });
    let mut lines: Vec<String> = Vec::new();
    let mut k: usize = 0;
    while k < bullets.len()
        invariant
            shown == texts(bullets@),
            0 <= k <= bullets@.len(),
            texts(lines@) =~= shown.subrange(0, k as int).map_values(|b: Seq<char>| "- "@ + b),
        decreases bullets.len() - k,
    {
        let mut line = owned("- ");
        push_str(&mut line, bullets[k].as_str());
        push_bullet(&mut lines, line);
        assert(shown.subrange(0, k + 1) =~= shown.subrange(0, k as int).push(shown[k as int]));
        k = k + 1;
    }
    assert(shown.subrange(0, bullets@.len() as int) =~= shown);
    join_texts(&lines, "\n")
}

} // verus!
