use pup::result::MdManipulationResult;

#[test]
fn fresh_tally_is_empty() {
    let res = MdManipulationResult::default();
    assert_eq!((res.total(), res.done(), res.failed()), (0, 0, 0));
}

#[test]
fn every_outcome_is_counted_once() {
    let mut res = MdManipulationResult::default();
    res.res_handling(&Ok::<(), String>(()));
    assert_eq!((res.total(), res.done(), res.failed()), (1, 1, 0));
    res.res_handling(&Err::<(), String>(String::from("conflict")));
    assert_eq!((res.total(), res.done(), res.failed()), (2, 1, 1));
    res.res_handling(&Ok::<(), u8>(()));
    assert_eq!((res.total(), res.done(), res.failed()), (3, 2, 1));
    assert_eq!(res.done() + res.failed(), res.total());
}
