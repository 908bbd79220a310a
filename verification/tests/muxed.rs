use insights_core::muxed::{
    get_muxed_analytics, has_muxed_shape, insert_sorted_unique, rank_top, tally_muxed,
    AddressTally, MuxedInfo,
};

fn muxed(tag: char) -> String {
    let mut s = String::from("M");
    for _ in 0..68 {
        s.push(tag);
    }
    s
}

fn plain(tag: char) -> String {
    let mut s = String::from("G");
    for _ in 0..55 {
        s.push(tag);
    }
    s
}

fn pay(source: &str, destination: &str) -> (String, String) {
    (source.to_string(), destination.to_string())
}

fn decode(address: &String) -> Option<MuxedInfo> {
    let tag = address.chars().nth(1)?;
    if tag == 'X' {
        return None;
    }
    Some(MuxedInfo {
        base_account: Some(plain(tag.to_ascii_uppercase())),
        muxed_id: Some(tag as u64),
    })
}

#[test]
fn shape_is_length_and_prefix() {
    assert!(has_muxed_shape(&muxed('A')));
    assert!(!has_muxed_shape(&plain('A')));
    assert!(!has_muxed_shape(""));
    assert!(!has_muxed_shape(&muxed('A')[..68]));
    let mut long = muxed('A');
    long.push('A');
    assert!(!has_muxed_shape(&long));
    let mut wrong_prefix = String::from("G");
    wrong_prefix.push_str(&muxed('A')[1..]);
    assert_eq!(wrong_prefix.len(), 69);
    assert!(!has_muxed_shape(&wrong_prefix));
    let mut lower = String::from("m");
    lower.push_str(&muxed('A')[1..]);
    assert!(!has_muxed_shape(&lower));
}

#[test]
fn muxed_address_with_three_and_two_occurrences_leads_the_ranking() {
    let a = muxed('A');
    let b = muxed('B');
    let g = plain('Q');
    let payments = vec![
        pay(&a, &g),
        pay(&a, &b),
        pay(&a, &g),
        pay(&g, &a),
        pay(&b, &a),
        pay(&g, &g),
        pay(&g, &b),
    ];
    let report = get_muxed_analytics(&payments, 1, decode);
    assert_eq!(report.top_muxed_by_activity.len(), 1);
    let first = &report.top_muxed_by_activity[0];
    assert_eq!(first.account_address, a);
    assert_eq!(first.payment_count_as_source, 3);
    assert_eq!(first.payment_count_as_destination, 2);
    assert_eq!(first.total_payments, 5);
    assert_eq!(first.base_account, Some(plain('A')));
    assert_eq!(first.muxed_id, Some('A' as u64));
    assert_eq!(report.total_muxed_payments, 6);
    assert_eq!(report.unique_muxed_addresses, 2);
    assert_eq!(report.base_accounts_with_muxed, vec![plain('A'), plain('B')]);
}

#[test]
fn ties_are_broken_by_address() {
    let a = muxed('A');
    let b = muxed('B');
    let c = muxed('C');
    let g = plain('Q');
    let payments = vec![pay(&c, &g), pay(&g, &b), pay(&a, &g), pay(&c, &b)];
    let report = get_muxed_analytics(&payments, 10, decode);
    let order: Vec<&str> =
        report.top_muxed_by_activity.iter().map(|u| u.account_address.as_str()).collect();
    assert_eq!(order, vec![b.as_str(), c.as_str(), a.as_str()]);
    let totals: Vec<u128> = report.top_muxed_by_activity.iter().map(|u| u.total_payments).collect();
    assert_eq!(totals, vec![2, 2, 1]);
    assert_eq!(report.unique_muxed_addresses, 3);
    assert_eq!(report.total_muxed_payments, 4);
    assert_eq!(report.base_accounts_with_muxed, vec![plain('A'), plain('B'), plain('C')]);

    let two = get_muxed_analytics(&payments, 2, decode);
    let order: Vec<&str> =
        two.top_muxed_by_activity.iter().map(|u| u.account_address.as_str()).collect();
    assert_eq!(order, vec![b.as_str(), c.as_str()]);
    assert_eq!(two.base_accounts_with_muxed, vec![plain('A'), plain('B'), plain('C')]);
    assert_eq!(two.unique_muxed_addresses, 3);
}

#[test]
fn same_address_on_both_sides_counts_twice_but_is_one_payment() {
    let a = muxed('A');
    let payments = vec![pay(&a, &a)];
    let report = get_muxed_analytics(&payments, 5, decode);
    assert_eq!(report.total_muxed_payments, 1);
    assert_eq!(report.unique_muxed_addresses, 1);
    assert_eq!(report.top_muxed_by_activity[0].total_payments, 2);
    assert_eq!(report.top_muxed_by_activity[0].payment_count_as_source, 1);
    assert_eq!(report.top_muxed_by_activity[0].payment_count_as_destination, 1);
}

#[test]
fn empty_input_and_zero_limit() {
    let none: Vec<(String, String)> = Vec::new();
    let report = get_muxed_analytics(&none, 3, decode);
    assert_eq!(report.total_muxed_payments, 0);
    assert_eq!(report.unique_muxed_addresses, 0);
    assert!(report.top_muxed_by_activity.is_empty());
    assert!(report.base_accounts_with_muxed.is_empty());

    let payments = vec![pay(&muxed('A'), &plain('Q'))];
    let report = get_muxed_analytics(&payments, 0, decode);
    assert_eq!(report.total_muxed_payments, 1);
    assert_eq!(report.unique_muxed_addresses, 1);
    assert!(report.top_muxed_by_activity.is_empty());
    assert_eq!(report.base_accounts_with_muxed, vec![plain('A')]);
}

#[test]
fn undecodable_addresses_keep_their_counts() {
    let x = muxed('X');
    let a = muxed('a');
    let payments = vec![pay(&x, &a), pay(&x, &plain('Q'))];
    let report = get_muxed_analytics(&payments, 5, decode);
    assert_eq!(report.top_muxed_by_activity[0].account_address, x);
    assert_eq!(report.top_muxed_by_activity[0].base_account, None);
    assert_eq!(report.top_muxed_by_activity[0].muxed_id, None);
    assert_eq!(report.top_muxed_by_activity[1].account_address, a);
    assert_eq!(report.base_accounts_with_muxed, vec![plain('A')]);
}

#[test]
fn base_accounts_are_distinct_and_sorted() {
    let payments = vec![
        pay(&muxed('c'), &muxed('C')),
        pay(&muxed('b'), &muxed('B')),
        pay(&muxed('a'), &muxed('c')),
    ];
    let report = get_muxed_analytics(&payments, 10, decode);
    assert_eq!(report.unique_muxed_addresses, 5);
    assert_eq!(report.base_accounts_with_muxed, vec![plain('A'), plain('B'), plain('C')]);
}

#[test]
fn every_distinct_address_is_decoded_once() {
    let calls = std::cell::RefCell::new(Vec::<String>::new());
    let a = muxed('A');
    let b = muxed('B');
    let payments = vec![pay(&a, &b), pay(&b, &a), pay(&a, &plain('Q')), pay(&a, &a)];
    let report = get_muxed_analytics(&payments, 1, |address: &String| {
        calls.borrow_mut().push(address.clone());
        decode(address)
    });
    let mut seen = calls.borrow().clone();
    seen.sort();
    assert_eq!(seen, vec![a.clone(), b.clone()]);
    assert_eq!(report.top_muxed_by_activity.len(), 1);
    assert_eq!(report.top_muxed_by_activity[0].account_address, a);
    assert_eq!(report.top_muxed_by_activity[0].total_payments, 5);
}

#[test]
fn tally_counts_each_side() {
    let a = muxed('A');
    let b = muxed('B');
    let payments = vec![pay(&a, &b), pay(&b, &a), pay(&a, &plain('Q')), pay(&plain('Q'), &plain('R'))];
    let (tallies, touched) = tally_muxed(&payments);
    assert_eq!(touched, 3);
    assert_eq!(tallies.len(), 2);
    let ta = tallies.iter().find(|t| t.address == a).unwrap();
    assert_eq!((ta.as_source, ta.as_destination), (2, 1));
    let tb = tallies.iter().find(|t| t.address == b).unwrap();
    assert_eq!((tb.as_source, tb.as_destination), (1, 1));
}

#[test]
fn rank_top_orders_positions() {
    let tallies = vec![
        AddressTally { address: muxed('D'), as_source: 1, as_destination: 0 },
        AddressTally { address: muxed('C'), as_source: 0, as_destination: 4 },
        AddressTally { address: muxed('B'), as_source: 2, as_destination: 2 },
        AddressTally { address: muxed('A'), as_source: u64::MAX, as_destination: u64::MAX },
    ];
    assert_eq!(rank_top(&tallies, 10), vec![3, 2, 1, 0]);
    assert_eq!(rank_top(&tallies, 2), vec![3, 2]);
    assert_eq!(rank_top(&tallies, 0), Vec::<usize>::new());
}

#[test]
fn sorted_insert_skips_duplicates() {
    let mut list: Vec<String> = Vec::new();
    for s in ["m", "b", "z", "b", "a", "m", "ab", ""] {
        insert_sorted_unique(&mut list, s.to_string());
    }
    assert_eq!(list, vec!["", "a", "ab", "b", "m", "z"]);
}
