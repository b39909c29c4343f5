use samplegraph::budget::AdmissionBudget;

#[test]
fn capacity_is_what_it_was_made_with() {
    assert_eq!(AdmissionBudget::new(0).capacity(), 0);
    assert_eq!(AdmissionBudget::new(4096).capacity(), 4096);
}

#[test]
fn capacity_is_capped() {
    assert_eq!(AdmissionBudget::new(usize::MAX).capacity(), usize::MAX / 8);
    assert_eq!(AdmissionBudget::new(usize::MAX / 8).capacity(), usize::MAX / 8);
    assert_eq!(AdmissionBudget::new(usize::MAX / 8 + 1).capacity(), usize::MAX / 8);
}

#[test]
fn empty_budget_admits_nothing() {
    let budget = AdmissionBudget::new(0);
    assert!(budget.try_admit(1).is_none());
}

#[test]
fn permits_are_taken_and_given_back() {
    let budget = AdmissionBudget::new(3);
    let first = budget.try_admit(2);
    assert!(first.is_some());
    assert!(budget.try_admit(2).is_none());
    let second = budget.try_admit(1);
    assert!(second.is_some());
    assert!(budget.try_admit(1).is_none());
    drop(first);
    assert!(budget.try_admit(2).is_some());
    drop(second);
    assert!(budget.try_admit(3).is_some());
}

#[test]
fn more_than_the_budget_is_never_admitted() {
    let budget = AdmissionBudget::new(3);
    assert!(budget.try_admit(4).is_none());
    assert!(budget.try_admit(3).is_some());
}

#[test]
fn shared_handles_draw_on_one_budget() {
    let budget = AdmissionBudget::new(2);
    let other = budget.share();
    assert_eq!(other.capacity(), 2);
    let held = budget.try_admit(2);
    assert!(held.is_some());
    assert!(other.try_admit(1).is_none());
    drop(held);
    assert!(other.try_admit(1).is_some());
}
