use cosmo::cones::composite::{CompositeCone, RhoRule};
use cosmo::cones::{BoxBound, Cone, NonnegativeCone, SecondOrderCone, ZeroCone};

#[test]
fn primitive_cone_constructors() {
    assert_eq!(ZeroCone::new(3).dim, 3);
    let nn = NonnegativeCone::new(4);
    assert_eq!(nn.dim, 4);
    assert_eq!(nn.constr_type, vec![false; 4]);
    assert_eq!(SecondOrderCone::new(3).dim, 3);
}

#[test]
fn cone_dims_and_kinds() {
    assert_eq!(Cone::zero(2).dim(), 2);
    assert_eq!(Cone::nonnegative(5).dim(), 5);
    assert_eq!(Cone::second_order(4).dim(), 4);
    assert_eq!(Cone::exponential().dim(), 3);
    assert_eq!(Cone::dual_exponential().dim(), 3);
    assert_eq!(Cone::power().dim(), 3);
    assert_eq!(Cone::dual_power().dim(), 3);
    assert_eq!(Cone::boxed(7).dim(), 7);
    assert!(Cone::zero(2).is_equality());
    assert!(!Cone::nonnegative(2).is_equality());
    assert!(!Cone::zero(2).needs_scalar_scaling());
    assert!(!Cone::nonnegative(2).needs_scalar_scaling());
    assert!(!Cone::boxed(2).needs_scalar_scaling());
    assert!(Cone::second_order(2).needs_scalar_scaling());
    assert!(Cone::exponential().needs_scalar_scaling());
    assert!(Cone::dual_power().needs_scalar_scaling());
}

#[test]
fn composite_offsets_are_running_sums() {
    let c = CompositeCone::new(vec![
        Cone::zero(2),
        Cone::nonnegative(3),
        Cone::second_order(4),
        Cone::exponential(),
        Cone::power(),
    ]);
    assert_eq!(c.offsets, vec![0, 2, 5, 9, 12]);
    assert_eq!(c.dim, 15);
    let empty = CompositeCone::new(vec![]);
    assert_eq!(empty.dim, 0);
    assert!(empty.offsets.is_empty());
}

#[test]
fn rho_rules_follow_cone_kinds() {
    let mut c = CompositeCone::new(vec![Cone::zero(2), Cone::nonnegative(3), Cone::boxed(3), Cone::second_order(2)]);
    assert_eq!(c.dim, 10);
    let loose = vec![true, true, false, true, false, true, true, true, true, true];
    let boxes = vec![
        BoxBound::Free,
        BoxBound::Free,
        BoxBound::Free,
        BoxBound::Free,
        BoxBound::Free,
        BoxBound::Free,
        BoxBound::Equality,
        BoxBound::Ordinary,
        BoxBound::Equality,
        BoxBound::Equality,
    ];
    c.classify_constraints(&loose, &boxes);
    match &c.cones[1] {
        Cone::Nonnegative(nn) => assert_eq!(nn.constr_type, vec![false, true, false]),
        _ => panic!("cone kind changed"),
    }
    let rules = c.rho_scaling_rules();
    assert_eq!(rules, vec![
        RhoRule::Equality,
        RhoRule::Equality,
        RhoRule::Keep,
        RhoRule::Loose,
        RhoRule::Keep,
        RhoRule::Loose,
        RhoRule::Equality,
        RhoRule::Keep,
        RhoRule::Keep,
        RhoRule::Keep,
    ]);
}

#[test]
fn fresh_cones_keep_rho() {
    let c = CompositeCone::new(vec![Cone::nonnegative(2), Cone::boxed(1), Cone::dual_exponential()]);
    assert_eq!(c.rho_scaling_rules(), vec![RhoRule::Keep; 6]);
}

#[test]
fn total_dimension_is_checked() {
    let cones = vec![Cone::zero(2), Cone::exponential(), Cone::second_order(4)];
    assert_eq!(CompositeCone::checked_total_dim(&cones), Some(9));
    assert_eq!(CompositeCone::checked_total_dim(&vec![]), Some(0));
    let huge = vec![Cone::zero(usize::MAX), Cone::nonnegative(0), Cone::exponential()];
    assert_eq!(CompositeCone::checked_total_dim(&huge), None);
}

#[test]
fn layout_validity_is_checked() {
    let good = CompositeCone::new(vec![Cone::zero(2), Cone::nonnegative(3), Cone::boxed(2)]);
    assert!(good.is_wf());
    assert!(Cone::second_order(1).is_wf());
    let bad_cone = Cone::Nonnegative(NonnegativeCone { dim: 3, constr_type: vec![false] });
    assert!(!bad_cone.is_wf());
    assert!(!Cone::SecondOrder(SecondOrderCone { dim: 0 }).is_wf());
    let bad_member = CompositeCone::new(vec![Cone::zero(1), bad_cone]);
    assert!(!bad_member.is_wf());
    let mut bad_offsets = CompositeCone::new(vec![Cone::zero(2), Cone::exponential()]);
    bad_offsets.offsets[1] = 1;
    assert!(!bad_offsets.is_wf());
    let mut bad_dim = CompositeCone::new(vec![Cone::zero(2)]);
    bad_dim.dim = 3;
    assert!(!bad_dim.is_wf());
}
