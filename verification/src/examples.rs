//! Three ill-formed paths, one for each placement rule.

use vstd::prelude::*;

use crate::path::check_path;
use crate::path::crate_only_at_start;
use crate::path::leading_supers;
use crate::path::lemma_leading_supers_is;
use crate::path::supers_only_leading;
use crate::path::PathError;
use crate::path::Segment;

verus! {

/// Runs the checker on three ill-formed paths, as read from a module nested
/// two levels below the crate root, and collects their diagnostics:
/// `super::super::super::foo` climbs past the crate root,
/// `super::crate::foo` puts `crate` after the first segment, and
/// `crate::foo::bar::super::foo` puts `super` after a named segment.
/// Each path breaks exactly one rule, so each contributes exactly one
/// diagnostic, and no other diagnostic is reported.
pub fn f() -> (r: Vec<PathError>)
    ensures
        r@ =~= seq![
            PathError::TooManyLeadingSupers,
            PathError::CrateNotAtStart,
            PathError::SuperNotAtStart,
        ],
{
    let foo: u64 = 0;
    let bar: u64 = 1;

    let mut p1: Vec<Segment> = Vec::new();
    p1.push(Segment::Super);
    p1.push(Segment::Super);
    p1.push(Segment::Super);
    p1.push(Segment::Named(foo));

    let mut p2: Vec<Segment> = Vec::new();
    p2.push(Segment::Super);
    p2.push(Segment::Crate);
    p2.push(Segment::Named(foo));

    let mut p3: Vec<Segment> = Vec::new();
    p3.push(Segment::Crate);
    p3.push(Segment::Named(foo));
    p3.push(Segment::Named(bar));
    p3.push(Segment::Super);
    p3.push(Segment::Named(foo));

    let mut diags = check_path(&p1, 2);
    proof {
        lemma_leading_supers_is(p1@, 3);
        assert(leading_supers(p1@) > 2);
        assert(crate_only_at_start(p1@));
        assert(supers_only_leading(p1@));
        assert(diags@ =~= seq![PathError::TooManyLeadingSupers]);
    }

    let mut d2 = check_path(&p2, 2);
    proof {
        lemma_leading_supers_is(p2@, 1);
        assert(p2@[1] is Crate);
        assert(!crate_only_at_start(p2@));
        assert(supers_only_leading(p2@));
        assert(d2@ =~= seq![PathError::CrateNotAtStart]);
    }

    let mut d3 = check_path(&p3, 2);
    proof {
        lemma_leading_supers_is(p3@, 0);
        assert(crate_only_at_start(p3@));
        assert(p3@[3] is Super);
        assert(!supers_only_leading(p3@));
        assert(d3@ =~= seq![PathError::SuperNotAtStart]);
    }

    diags.append(&mut d2);
    diags.append(&mut d3);
    diags
}

} // verus!
