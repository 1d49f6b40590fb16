use blitz_mustang::region::Region;

#[test]
fn test_region_new() {
    let region = Region::new(10, 20, 100, 50);
    assert_eq!(region.x, 10);
    assert_eq!(region.y, 20);
    assert_eq!(region.width, 100);
    assert_eq!(region.height, 50);
}

#[test]
fn test_region_contains() {
    let region = Region::new(0, 0, 100, 100);
    assert!(region.contains(50, 50));
    assert!(region.contains(0, 0));
    assert!(region.contains(99, 99));
    assert!(!region.contains(100, 50));
    assert!(!region.contains(50, 100));
    assert!(!region.contains(-1, 50));
}

#[test]
fn test_region_area() {
    let region = Region::new(0, 0, 100, 50);
    assert_eq!(region.area(), 5000i128);
}

#[test]
fn test_region_expand() {
    let region = Region::new(10, 20, 100, 50);
    let expanded = region.expand(5);
    assert_eq!(expanded.x, 5);
    assert_eq!(expanded.y, 15);
    assert_eq!(expanded.width, 110);
    assert_eq!(expanded.height, 60);
}

#[test]
fn test_region_contract() {
    let region = Region::new(10, 20, 100, 50);
    let contracted = region.contract(5);
    assert_eq!(contracted.x, 15);
    assert_eq!(contracted.y, 25);
    assert_eq!(contracted.width, 90);
    assert_eq!(contracted.height, 40);
}

#[test]
fn test_region_center() {
    let region = Region::new(0, 0, 100, 50);
    let center = region.center();
    assert_eq!(center, (50, 25));
}

#[test]
fn test_region_from_center() {
    let region = Region::from_center(50, 25, 100, 50);
    assert_eq!(region.x, 0);
    assert_eq!(region.y, 0);
    assert_eq!(region.width, 100);
    assert_eq!(region.height, 50);
}

#[test]
fn test_region_intersects() {
    let region1 = Region::new(0, 0, 100, 100);
    let region2 = Region::new(50, 50, 100, 100);
    let region3 = Region::new(200, 200, 100, 100);

    assert!(region1.intersects(&region2));
    assert!(!region1.intersects(&region3));
}

#[test]
fn test_region_intersection() {
    let region1 = Region::new(0, 0, 100, 100);
    let region2 = Region::new(50, 50, 100, 100);

    let intersection = region1.intersection(&region2).unwrap();
    assert_eq!(intersection.x, 50);
    assert_eq!(intersection.y, 50);
    assert_eq!(intersection.width, 50);
    assert_eq!(intersection.height, 50);
}

#[test]
fn test_region_union() {
    let region1 = Region::new(0, 0, 100, 100);
    let region2 = Region::new(50, 50, 100, 100);

    let union = region1.union(&region2);
    assert_eq!(union.x, 0);
    assert_eq!(union.y, 0);
    assert_eq!(union.width, 150);
    assert_eq!(union.height, 150);
}

// Half-open upper bound at sub-pixel precision: coordinates are in
// thousandths of a pixel, so a hundred-pixel region excludes x = 100.000
// and includes x = 99.999.
#[test]
fn test_region_contains_half_open_subpixel() {
    let region = Region::new(0, 0, 100_000, 100_000);
    assert!(!region.contains(100_000, 50_000));
    assert!(region.contains(99_999, 50_000));
}

#[test]
fn test_region_touching_edges_do_not_intersect() {
    let a = Region::new(0, 0, 100, 100);
    let b = Region::new(100, 0, 50, 100);
    assert!(!a.intersects(&b));
    assert!(a.intersection(&b).is_none());
}

#[test]
fn test_region_self_intersects() {
    let a = Region::new(3, 4, 10, 20);
    assert!(a.intersects(&a));
}

#[test]
fn test_region_intersection_none_iff_disjoint() {
    let a = Region::new(0, 0, 10, 10);
    let b = Region::new(20, 20, 10, 10);
    let c = Region::new(5, 5, 10, 10);
    assert_eq!(a.intersection(&b).is_none(), !a.intersects(&b));
    assert_eq!(a.intersection(&c).is_none(), !a.intersects(&c));
}

#[test]
fn test_region_intersection_idempotent() {
    let a = Region::new(0, 0, 100, 100);
    let b = Region::new(50, 50, 100, 100);
    let o = a.intersection(&b).unwrap();
    assert_eq!(o.intersection(&o), Some(o));
}

#[test]
fn test_region_contract_clamps_to_zero() {
    let region = Region::new(0, 0, 10, 10);
    let contracted = region.contract(20);
    assert_eq!(contracted.width, 0);
    assert_eq!(contracted.height, 0);
}

#[test]
fn test_region_contract_expand_round_trip() {
    let a = Region::new(10, 20, 100, 50);
    let p = 5;
    assert_eq!(a.contract(p).expand(p), a);
}

#[test]
fn test_region_default() {
    let r = Region::default();
    assert_eq!(r, Region::new(0, 0, 100, 100));
}
