use modpath::examples::f;
use modpath::path::check_path;
use modpath::path::path_is_valid;
use modpath::path::PathError;
use modpath::path::Segment;

const FOO: u64 = 0;
const BAR: u64 = 1;

#[test]
fn too_many_leading_supers() {
    let p = vec![
        Segment::Super,
        Segment::Super,
        Segment::Super,
        Segment::Named(FOO),
    ];
    assert_eq!(check_path(&p, 2), vec![PathError::TooManyLeadingSupers]);
    assert!(!path_is_valid(&p, 2));
}

#[test]
fn crate_after_first_segment() {
    let p = vec![Segment::Super, Segment::Crate, Segment::Named(FOO)];
    assert_eq!(check_path(&p, 2), vec![PathError::CrateNotAtStart]);
    assert!(!path_is_valid(&p, 2));
}

#[test]
fn super_after_named_segment() {
    let p = vec![
        Segment::Crate,
        Segment::Named(FOO),
        Segment::Named(BAR),
        Segment::Super,
        Segment::Named(FOO),
    ];
    assert_eq!(check_path(&p, 2), vec![PathError::SuperNotAtStart]);
    assert!(!path_is_valid(&p, 2));
}

#[test]
fn diagnoses_all_three() {
    assert_eq!(
        f(),
        vec![
            PathError::TooManyLeadingSupers,
            PathError::CrateNotAtStart,
            PathError::SuperNotAtStart,
        ]
    );
}

#[test]
fn supers_within_depth_pass() {
    let p = vec![Segment::Super, Segment::Super, Segment::Named(FOO)];
    assert_eq!(check_path(&p, 2), vec![]);
    assert!(path_is_valid(&p, 2));
    assert!(path_is_valid(&p, 3));
}

#[test]
fn one_super_past_the_root() {
    let p = vec![Segment::Super, Segment::Super, Segment::Super];
    assert_eq!(check_path(&p, 2), vec![PathError::TooManyLeadingSupers]);
}

#[test]
fn depth_zero_rejects_any_super() {
    let p = vec![Segment::Super];
    assert_eq!(check_path(&p, 0), vec![PathError::TooManyLeadingSupers]);
}

#[test]
fn crate_first_is_valid() {
    let p = vec![Segment::Crate, Segment::Named(FOO), Segment::Named(BAR)];
    assert_eq!(check_path(&p, 0), vec![]);
    assert!(path_is_valid(&p, 5));
}

#[test]
fn crate_alone_is_valid() {
    let p = vec![Segment::Crate];
    assert_eq!(check_path(&p, 0), vec![]);
}

#[test]
fn empty_path_is_valid() {
    let p: Vec<Segment> = Vec::new();
    assert_eq!(check_path(&p, 0), vec![]);
    assert!(path_is_valid(&p, 0));
}

#[test]
fn plain_named_path_is_valid() {
    let p = vec![Segment::Named(FOO), Segment::Named(BAR)];
    assert!(path_is_valid(&p, 0));
}

#[test]
fn named_then_crate_is_rejected() {
    let p = vec![Segment::Named(FOO), Segment::Crate];
    assert_eq!(check_path(&p, 4), vec![PathError::CrateNotAtStart]);
}

#[test]
fn super_after_crate_is_rejected() {
    let p = vec![Segment::Crate, Segment::Super];
    assert_eq!(check_path(&p, 4), vec![PathError::SuperNotAtStart]);
}

#[test]
fn excess_supers_and_later_crate_both_reported() {
    let p = vec![
        Segment::Super,
        Segment::Super,
        Segment::Super,
        Segment::Crate,
    ];
    assert_eq!(
        check_path(&p, 2),
        vec![PathError::TooManyLeadingSupers, PathError::CrateNotAtStart]
    );
}

#[test]
fn misplaced_crate_and_super_both_reported() {
    let p = vec![Segment::Named(FOO), Segment::Crate, Segment::Super];
    assert_eq!(
        check_path(&p, 4),
        vec![PathError::CrateNotAtStart, PathError::SuperNotAtStart]
    );
}

#[test]
fn all_three_rules_reported_together() {
    let p = vec![
        Segment::Super,
        Segment::Super,
        Segment::Super,
        Segment::Crate,
        Segment::Super,
    ];
    assert_eq!(
        check_path(&p, 2),
        vec![
            PathError::TooManyLeadingSupers,
            PathError::CrateNotAtStart,
            PathError::SuperNotAtStart,
        ]
    );
}
