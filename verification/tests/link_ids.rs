use privatepay::link_id::{
    generate_link_id, is_valid_link_id, link_id_from_draws, LINK_ID_ALPHABET, LINK_ID_LEN,
    LINK_ID_SYMBOLS,
};
use privatepay::ranking::newest_positions;

#[test]
fn alphabet_has_36_symbols() {
    assert_eq!(LINK_ID_ALPHABET.len(), 36);
    assert_eq!(LINK_ID_SYMBOLS, 36);
    assert_eq!(LINK_ID_LEN, 8);
    assert!(LINK_ID_ALPHABET.chars().all(|c| c.is_ascii_lowercase() || c.is_ascii_digit()));
}

#[test]
fn draws_index_the_alphabet() {
    assert_eq!(link_id_from_draws(&[0, 25, 26, 35, 1, 2, 27, 34]), "az09bc18");
    assert_eq!(link_id_from_draws(&[0; 8]), "aaaaaaaa");
}

#[test]
fn draws_are_reduced_modulo_36() {
    assert_eq!(link_id_from_draws(&[36, 37, 71, 72, 360, 61, 62, 35 + 36 * 1000]), "ab9aaz09");
    let top = usize::MAX;
    let symbol = LINK_ID_ALPHABET.chars().nth(top % 36).unwrap();
    let id = link_id_from_draws(&[top; 8]);
    assert_eq!(id, symbol.to_string().repeat(8));
}

#[test]
fn generated_ids_are_well_formed() {
    for _ in 0..100 {
        let id = generate_link_id();
        assert_eq!(id.chars().count(), 8);
        assert!(is_valid_link_id(&id));
    }
}

#[test]
fn well_formed_ids_are_recognised() {
    assert!(is_valid_link_id("abcd1234"));
    assert!(is_valid_link_id("00000000"));
    assert!(is_valid_link_id("zzzzzzzz"));
    assert!(is_valid_link_id("a9z0b8y1"));
}

#[test]
fn malformed_ids_are_recognised() {
    assert!(!is_valid_link_id(""));
    assert!(!is_valid_link_id("abcd123"));
    assert!(!is_valid_link_id("abcd12345"));
    assert!(!is_valid_link_id("Abcd1234"));
    assert!(!is_valid_link_id("abcd-234"));
    assert!(!is_valid_link_id("abcd123{"));
    assert!(!is_valid_link_id("abcd123`"));
    assert!(!is_valid_link_id("abcd123/"));
    assert!(!is_valid_link_id("abcd123:"));
    assert!(!is_valid_link_id("abcd123é"));
    assert!(!is_valid_link_id("éééééééé"));
}

#[test]
fn positions_are_listed_newest_first() {
    assert_eq!(newest_positions(&vec![30, 10, 20, 40], 50), vec![3, 0, 2, 1]);
    assert_eq!(newest_positions(&vec![], 50), Vec::<usize>::new());
    assert_eq!(newest_positions(&vec![5], 50), vec![0]);
    assert_eq!(newest_positions(&vec![i64::MIN, i64::MAX, 0], 50), vec![1, 2, 0]);
}

#[test]
fn equal_times_keep_their_order() {
    assert_eq!(newest_positions(&vec![7, 7, 7], 50), vec![0, 1, 2]);
    assert_eq!(newest_positions(&vec![1, 2, 1, 2], 50), vec![1, 3, 0, 2]);
}

#[test]
fn positions_are_cut_at_the_limit() {
    assert_eq!(newest_positions(&vec![30, 10, 20, 40], 2), vec![3, 0]);
    assert_eq!(newest_positions(&vec![30, 10, 20, 40], 0), Vec::<usize>::new());
    assert_eq!(newest_positions(&vec![30, 10, 20, 40], 4), vec![3, 0, 2, 1]);
    assert_eq!(newest_positions(&vec![30, 10, 20, 40], 5), vec![3, 0, 2, 1]);
}
