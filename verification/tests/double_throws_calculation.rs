use rich_darts::components::calculation::common;
use rich_darts::components::calculation::double_throws_calculation::HowManyOnDouble::{NeedEntry, NotRelevant, OnlyOne};
use rich_darts::components::calculation::double_throws_calculation::{ask_for_double_entry, HowManyOnDouble};
use rich_darts::domain::Score;

fn helper(remaining: u16, thrown: u16) -> Score {
    Score { leg_id: 1, remaining, thrown, throw_order: 1, double_attempt: None }
}

#[test]
fn no_0_on_suc_finish() {
    let finishes: Vec<u16> = (2..171).into_iter().map(|s| s as u16).filter(|val| common::is_finish(*val)).collect();
    let ask_entries: Vec<(u16, HowManyOnDouble)> = finishes
        .into_iter()
        .map(|val| (val, ask_for_double_entry(&helper(20, val), &helper(0, 20))))
        .collect();
    for (test_val, entry) in ask_entries.into_iter() {
        match entry {
            NotRelevant => {
                panic!("wrong ask_entry for {}", test_val);
            }
            OnlyOne => {}
            NeedEntry(rec_val) => {
                assert!(!rec_val.contains(&0));
            }
        }
    }
}

#[test]
fn no_3_on_finish_that_are_not_doubles() {
    let finishes: Vec<u16> = (2..171)
        .into_iter()
        .map(|s| s as u16)
        .filter(|val| common::is_finish(*val))
        .filter(|val| !(val < &41 && val % 2 == 0))
        .filter(|val| !(val == &50))
        .collect();
    let ask_entries: Vec<(u16, HowManyOnDouble)> = finishes
        .into_iter()
        .map(|val| (val, ask_for_double_entry(&helper(val, val), &helper(0, 20))))
        .collect();
    for (test_val, entry) in ask_entries.into_iter() {
        match entry {
            NotRelevant => {
                panic!("wrong ask_entry (NotRelevant) for {}", test_val);
            }
            OnlyOne => {}
            NeedEntry(rec_val) => {
                if rec_val.contains(&0) || rec_val.contains(&3) {
                    panic!("wrong rec_vals (needentry) for {} with {:?}", test_val, rec_val);
                };
            }
        }
    }
}

#[test]
fn no_3_on_finish_that_are_not_doubles_not_suc() {
    let finishes: Vec<u16> = (2..171)
        .into_iter()
        .map(|s| s as u16)
        .filter(|val| common::is_finish(*val))
        .filter(|val| !(val < &41 && val % 2 == 0))
        .filter(|val| !(val == &50))
        .collect();
    let ask_entries: Vec<(u16, HowManyOnDouble)> = finishes
        .into_iter()
        .map(|val| (val, ask_for_double_entry(&helper(val, val), &helper(20, 20))))
        .collect();
    for (test_val, entry) in ask_entries.into_iter() {
        match entry {
            NotRelevant => {
                panic!("wrong ask_entry (NotRelevant) for {}", test_val);
            }
            OnlyOne => {}
            NeedEntry(rec_val) => {
                if rec_val.contains(&3) {
                    panic!("wrong rec_vals (needentry) for {} with {:?}", test_val, rec_val);
                };
            }
        }
    }
}

#[test]
fn not_relevant_on_non_finishes() {
    let finishes: Vec<u16> = (2..501).into_iter().map(|s| s as u16).filter(|val| !common::is_finish(*val)).collect();
    let ask_entries: Vec<(u16, HowManyOnDouble)> = finishes
        .into_iter()
        .map(|val| (val, ask_for_double_entry(&helper(val, val), &helper(300, 20))))
        .collect();
    for (test_val, entry) in ask_entries.into_iter() {
        match entry {
            NotRelevant => {}
            OnlyOne => {
                panic!("wrong ask_entry (OnlyOne) for {}", test_val);
            }
            NeedEntry(rec_val) => {
                panic!("wrong ask_entry (needentry) for {} with {:?}", test_val, rec_val);
            }
        }
    }
}

#[test]
fn not_relevant_on_non_0_above_50() {
    let finishes: Vec<u16> = (51..501).into_iter().map(|s| s as u16).collect();
    let ask_entries: Vec<(u16, HowManyOnDouble)> = finishes
        .into_iter()
        .map(|val| (val, ask_for_double_entry(&helper(val + 100, 20), &helper(val, 100))))
        .collect();
    for (test_val, entry) in ask_entries.into_iter() {
        match entry {
            NotRelevant => {}
            OnlyOne => {
                panic!("wrong ask_entry (OnlyOne) for {}", test_val);
            }
            NeedEntry(rec_val) => {
                panic!("wrong ask_entry (needentry) for {} with {:?}", test_val, rec_val);
            }
        }
    }
}

#[test]
fn only_one_on_120_plus_finishes() {
    let finishes: Vec<u16> = (121..171).into_iter().map(|s| s as u16).filter(|val| common::is_finish(*val)).collect();
    let ask_entries: Vec<(u16, HowManyOnDouble)> = finishes
        .into_iter()
        .map(|val| (val, ask_for_double_entry(&helper(val, val), &helper(0, 20))))
        .collect();
    for (test_val, entry) in ask_entries.into_iter() {
        match entry {
            NotRelevant => {
                panic!("wrong ask_entry (NotRelevant) for {}", test_val);
            }
            OnlyOne => {}
            NeedEntry(rec_val) => {
                panic!("wrong ask_entry (NeedEntry) for {} with {:?}", test_val, rec_val);
            }
        }
    }
}

#[test]
fn only_one_on_120_plus_finishes_not_suc() {
    let finishes: Vec<u16> = (121..171).into_iter().map(|s| s as u16).filter(|val| common::is_finish(*val)).collect();
    let ask_entries: Vec<(u16, HowManyOnDouble)> = finishes
        .into_iter()
        .map(|val| (val, ask_for_double_entry(&helper(val, val), &helper(10, 20))))
        .collect();
    for (test_val, entry) in ask_entries.into_iter() {
        match entry {
            NotRelevant => {
                panic!("wrong ask_entry (NotRelevant) for {}", test_val);
            }
            OnlyOne => {
                panic!("wrong ask_entry (OnlyOne) for {}", test_val);
            }
            NeedEntry(rec_val) => {
                if rec_val.contains(&2) || rec_val.contains(&3) {
                    panic!("wrong rec_vals (needentry) for {} with {:?}", test_val, rec_val);
                };
            }
        }
    }
}

#[test]
fn double_entry_exact_options() {
    assert_eq!(ask_for_double_entry(&helper(40, 0), &helper(0, 40)), NeedEntry(vec![1, 2, 3]));
    assert_eq!(ask_for_double_entry(&helper(40, 0), &helper(20, 20)), NeedEntry(vec![0, 1, 2, 3]));
    assert_eq!(ask_for_double_entry(&helper(41, 0), &helper(0, 41)), NeedEntry(vec![1, 2]));
    assert_eq!(ask_for_double_entry(&helper(50, 0), &helper(0, 50)), NeedEntry(vec![1, 2, 3]));
    assert_eq!(ask_for_double_entry(&helper(130, 0), &helper(0, 130)), OnlyOne);
    assert_eq!(ask_for_double_entry(&helper(105, 0), &helper(0, 105)), NeedEntry(vec![1, 2]));
    assert_eq!(ask_for_double_entry(&helper(169, 0), &helper(0, 20)), NotRelevant);
    assert_eq!(ask_for_double_entry(&helper(60, 0), &helper(60, 0)), NeedEntry(vec![0, 1, 2]));
}
