use warehouse::db::products::{variations_by_product, variations_of};

#[test]
fn variations_are_grouped_by_product_in_order() {
    let products = vec![10, 20, 30];
    let owners = vec![20, 10, 20, 40, 10];
    let groups = variations_by_product(&products, &owners);
    assert_eq!(groups, vec![vec![1, 4], vec![0, 2], vec![]]);
    assert_eq!(variations_of(&owners, 40), vec![3]);
    assert!(variations_by_product(&vec![], &owners).is_empty());
}

#[test]
fn a_position_is_listed_exactly_when_it_belongs_to_the_product() {
    let owners = vec![5, 6, 5, 5, 7];
    let listed = variations_of(&owners, 5);
    for (j, owner) in owners.iter().enumerate() {
        assert_eq!(listed.contains(&j), *owner == 5);
    }
}
