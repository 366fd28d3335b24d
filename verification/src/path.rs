//! The path model and the placement checker.
//!
//! A path is a sequence of segments. `super` segments may only form a
//! leading run, and that run may not climb higher than the context is deep.
//! A `crate` segment may only stand first. The checker judges the three
//! rules independently and reports every rule the path breaks: one broken
//! rule never hides another.

use vstd::prelude::*;

verus! {

/// One segment of a module path: the `crate` keyword, the `super` keyword,
/// or a named item. Names are carried as interned identifiers; the placement
/// rules never look at which name it is.
#[derive(Clone, Copy, PartialEq, Eq, Structural, Debug)]
pub enum Segment {
    Crate,
    Super,
    Named(u64),
}

/// A placement rule a path can break, named after the offending segments.
#[derive(Clone, Copy, PartialEq, Eq, Structural, Debug)]
pub enum PathError {
    /// The leading run of `super` segments climbs past the crate root.
    TooManyLeadingSupers,
    /// A `crate` segment stands after the first position.
    CrateNotAtStart,
    /// A `super` segment stands after a segment that is not `super`.
    SuperNotAtStart,
}

/// How many `super` segments the path starts with.
pub open spec fn leading_supers(s: Seq<Segment>) -> nat
    decreases s.len(),
{
    if s.len() > 0 && s[0] is Super {
        leading_supers(s.drop_first()) + 1
    } else {
        0
    }
}

/// No `crate` segment stands after the first position.
pub open spec fn crate_only_at_start(s: Seq<Segment>) -> bool {
    forall|i: int| 0 < i < s.len() ==> !(s[i] is Crate)
}

/// Every `super` segment lies within the leading run of `super` segments.
pub open spec fn supers_only_leading(s: Seq<Segment>) -> bool {
    forall|i: int| 0 <= i < s.len() && s[i] is Super ==> i < leading_supers(s)
}

/// A path is well placed in a context nested `depth` modules below the crate
/// root when its leading `super` run stays within that depth, `crate` stands
/// only first, and no `super` follows another kind of segment.
pub open spec fn path_valid(s: Seq<Segment>, depth: nat) -> bool {
    &&& leading_supers(s) <= depth
    &&& crate_only_at_start(s)
    &&& supers_only_leading(s)
}

/// Every rule the path breaks, each judged on its own, in a fixed order.
pub open spec fn broken_rules(s: Seq<Segment>, depth: nat) -> Seq<PathError> {
    let excess = if leading_supers(s) > depth {
        seq![PathError::TooManyLeadingSupers]
    } else {
        Seq::<PathError>::empty()
    };
    let misplaced_crate = if !crate_only_at_start(s) {
        seq![PathError::CrateNotAtStart]
    } else {
        Seq::<PathError>::empty()
    };
    let misplaced_super = if !supers_only_leading(s) {
        seq![PathError::SuperNotAtStart]
    } else {
        Seq::<PathError>::empty()
    };
    excess + misplaced_crate + misplaced_super
}

/// A rule is reported exactly when the path breaks it, whatever else the
/// path breaks; nothing else is ever reported, and nothing is reported of
/// a well-placed path.
pub proof fn lemma_each_rule_reported(s: Seq<Segment>, depth: nat)
    ensures
        broken_rules(s, depth).contains(PathError::TooManyLeadingSupers) <==> leading_supers(s)
            > depth,
        broken_rules(s, depth).contains(PathError::CrateNotAtStart) <==> !crate_only_at_start(s),
        broken_rules(s, depth).contains(PathError::SuperNotAtStart) <==> !supers_only_leading(s),
        broken_rules(s, depth).len() == 0 <==> path_valid(s, depth),
{
    let r = broken_rules(s, depth);
    let tm = PathError::TooManyLeadingSupers;
    let cn = PathError::CrateNotAtStart;
    let sn = PathError::SuperNotAtStart;
    let la: int = if leading_supers(s) > depth { 1 } else { 0 };
    let lb: int = if !crate_only_at_start(s) { 1 } else { 0 };
    if leading_supers(s) > depth {
        assert(r[0] == tm);
        assert(r.contains(tm));
    }
    if !crate_only_at_start(s) {
        assert(r[la] == cn);
        assert(r.contains(cn));
    }
    if !supers_only_leading(s) {
        assert(r[la + lb] == sn);
        assert(r.contains(sn));
    }
    assert forall|i: int| 0 <= i < r.len() implies (r[i] == tm ==> leading_supers(s) > depth) && (
    r[i] == cn ==> !crate_only_at_start(s)) && (r[i] == sn ==> !supers_only_leading(s)) by {
        if i < la {
            assert(r[i] == tm);
        } else if i < la + lb {
            assert(r[i] == cn);
        } else {
            assert(r[i] == sn);
        }
    }
}

/// Checks the placement of `crate` and `super` in `segs`, read in a context
/// nested `depth` modules below the crate root. Returns every rule the path
/// breaks; an empty result means the path is well placed.
pub fn check_path(segs: &Vec<Segment>, depth: usize) -> (r: Vec<PathError>)
    ensures
        r@ == broken_rules(segs@, depth as nat),
        r@.contains(PathError::TooManyLeadingSupers) <==> leading_supers(segs@) > depth as nat,
        r@.contains(PathError::CrateNotAtStart) <==> !crate_only_at_start(segs@),
        r@.contains(PathError::SuperNotAtStart) <==> !supers_only_leading(segs@),
        r@.len() == 0 <==> path_valid(segs@, depth as nat),
{
    let lead_count = leading_super_count(segs);
    let mut r: Vec<PathError> = Vec::new();
    if lead_count > depth {
        r.push(PathError::TooManyLeadingSupers);
    }
    if has_crate_after_start(segs) {
        r.push(PathError::CrateNotAtStart);
    }
    if has_super_past_lead(segs, lead_count) {
        r.push(PathError::SuperNotAtStart);
    }
    proof {
        assert(r@ =~= broken_rules(segs@, depth as nat));
        lemma_each_rule_reported(segs@, depth as nat);
    }
    r
}

/// Decides validity alone: returns true exactly on the well-placed paths.
pub fn path_is_valid(segs: &Vec<Segment>, depth: usize) -> (b: bool)
    ensures
        b == path_valid(segs@, depth as nat),
{
    let broken = check_path(segs, depth);
    broken.len() == 0
}

/// The length of the leading `super` run.
fn leading_super_count(segs: &Vec<Segment>) -> (n: usize)
    ensures
        n == leading_supers(segs@),
{
    let mut i: usize = 0;
    loop
        invariant
            i <= segs.len(),
            forall|j: int| 0 <= j < i ==> segs@[j] is Super,
        decreases segs.len() - i,
    {
        if i >= segs.len() || !(segs[i] == Segment::Super) {
            proof {
                lemma_leading_supers_is(segs@, i as int);
            }
            return i;
        }
        i = i + 1;
    }
}

/// Whether some `crate` segment stands after the first position.
fn has_crate_after_start(segs: &Vec<Segment>) -> (b: bool)
    ensures
        b == !crate_only_at_start(segs@),
{
    let mut i: usize = 1;
    loop
        invariant
            1 <= i,
            forall|j: int| 0 < j < i && j < segs@.len() ==> !(segs@[j] is Crate),
        decreases segs.len() - i,
    {
        if i >= segs.len() {
            return false;
        }
        if segs[i] == Segment::Crate {
            return true;
        }
        i = i + 1;
    }
}

/// Whether some `super` segment stands past the leading `super` run.
fn has_super_past_lead(segs: &Vec<Segment>, lead_count: usize) -> (b: bool)
    requires
        lead_count == leading_supers(segs@),
    ensures
        b == !supers_only_leading(segs@),
{
    let mut i: usize = lead_count;
    loop
        invariant
            lead_count <= i,
            lead_count == leading_supers(segs@),
            forall|j: int| lead_count <= j < i && j < segs@.len() ==> !(segs@[j] is Super),
        decreases segs.len() - i,
    {
        if i >= segs.len() {
            return false;
        }
        if segs[i] == Segment::Super {
            return true;
        }
        i = i + 1;
    }
}

/// A run of `k` `super` segments that the next segment, if any, does not
/// extend is the leading run: `leading_supers` counts exactly `k`.
pub proof fn lemma_leading_supers_is(s: Seq<Segment>, k: int)
    requires
        0 <= k <= s.len(),
        forall|j: int| 0 <= j < k ==> s[j] is Super,
        k < s.len() ==> !(s[k] is Super),
    ensures
        leading_supers(s) == k,
{
    lemma_leading_supers_shape(s);
    if leading_supers(s) < k {
        assert(s[leading_supers(s) as int] is Super);
    }
    if leading_supers(s) > k {
        assert(s[k] is Super);
    }
}

/// The leading run is no longer than the path; it holds only `super`
/// segments; and the segment right after it, if any, is not `super`.
proof fn lemma_leading_supers_shape(s: Seq<Segment>)
    ensures
        leading_supers(s) <= s.len(),
        forall|j: int| 0 <= j < leading_supers(s) ==> s[j] is Super,
        leading_supers(s) < s.len() ==> !(s[leading_supers(s) as int] is Super),
    decreases s.len(),
{
    if s.len() > 0 && s[0] is Super {
        lemma_leading_supers_shape(s.drop_first());
        assert forall|j: int| 0 <= j < leading_supers(s) implies s[j] is Super by {
            if j >= 1 {
                assert(s.drop_first()[j - 1] is Super);
                assert(s.drop_first()[j - 1] == s[j]);
            }
        }
        if leading_supers(s) < s.len() {
            let l: int = leading_supers(s.drop_first()) as int;
            assert(!(s.drop_first()[l] is Super));
            assert(s.drop_first()[l] == s[l + 1]);
        }
    }
}

} // verus!

