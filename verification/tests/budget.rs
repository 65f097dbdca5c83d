use bdgt::budget::Budget;
use bdgt::error::ErrorKind;
use bdgt::ledger::{Query, TimeWindow};
use bdgt::storage::{CategoryType, Id, MetaInfo};

fn id(instance: u64, serial: u64) -> Id {
    Id { instance, serial }
}

fn text(value: &str) -> String {
    value.to_string()
}

struct Fixture {
    budget: Budget,
    wallet: Id,
    bank: Id,
    salary: Id,
    food: Id,
    rent: Id,
}

fn fixture() -> Fixture {
    let mut budget = Budget::new(7);
    let wallet = budget.add_account(text("Wallet"), 0, 10).unwrap();
    let bank = budget.add_account(text("Bank"), 0, 10).unwrap();
    let salary = budget.add_category(text("Salary"), CategoryType::Income, 11).unwrap();
    let food = budget.add_category(text("Food"), CategoryType::Outcome, 11).unwrap();
    let rent = budget.add_category(text("Rent"), CategoryType::Outcome, 11).unwrap();
    Fixture { budget, wallet, bank, salary, food, rent }
}

fn balance(budget: &Budget, account: Id) -> isize {
    budget.account(account).unwrap().balance
}

fn live_sum(budget: &Budget, account: Id) -> isize {
    budget.transactions_of(account).iter().map(|transaction| transaction.amount).sum()
}

fn assert_balanced(budget: &Budget) {
    for account in budget.accounts() {
        assert_eq!(account.balance, live_sum(budget, account.id));
    }
}

#[test]
fn new_budget_holds_the_built_in_categories_only() {
    let budget = Budget::new(7);
    assert_eq!(budget.instance_id(), 7);
    assert!(budget.accounts().is_empty());
    assert!(budget.plans().is_empty());
    assert!(budget.transactions().is_empty());
    let categories = budget.categories();
    assert_eq!(categories.len(), 2);
    assert_eq!(categories[0].id, Budget::transfer_income());
    assert_eq!(categories[0].category_type, CategoryType::Income);
    assert_eq!(categories[0].name, "Transfer");
    assert_eq!(categories[1].id, Budget::transfer_outcome());
    assert_eq!(categories[1].category_type, CategoryType::Outcome);
    assert_eq!(categories[1].name, "Transfer");
    assert_eq!(Budget::transfer_income(), id(0, 0));
    assert_eq!(Budget::transfer_outcome(), id(0, 1));
}

#[test]
fn identifiers_are_numbered_by_instance() {
    let fixture = fixture();
    assert_eq!(fixture.wallet, id(7, 0));
    assert_eq!(fixture.bank, id(7, 1));
    assert_eq!(fixture.salary, id(7, 2));
    assert_eq!(fixture.food, id(7, 3));
    let mut other = Budget::new(0);
    assert_eq!(other.add_category(text("Gifts"), CategoryType::Income, 1).unwrap(), id(0, 2));
}

#[test]
fn add_category_stores_meta_info() {
    let fixture = fixture();
    let category = fixture.budget.category(fixture.food).unwrap();
    assert_eq!(category.name, "Food");
    assert_eq!(category.category_type, CategoryType::Outcome);
    assert_eq!(
        category.meta_info,
        MetaInfo { instance_id: 7, created_at: 11, modified_at: 11, deleted_at: None }
    );
    assert_eq!(MetaInfo::new(7, 11), category.meta_info);
}

#[test]
fn add_transaction_normalizes_the_sign() {
    let mut fixture = fixture();
    let budget = &mut fixture.budget;
    let earned = budget.add_transaction(fixture.wallet, fixture.salary, text("pay"), -1000, 20, 21).unwrap();
    let eaten = budget.add_transaction(fixture.wallet, fixture.food, text("lunch"), 30, 22, 23).unwrap();
    let more = budget.add_transaction(fixture.wallet, fixture.food, text("dinner"), -45, 24, 25).unwrap();
    let transactions = budget.transactions();
    assert_eq!(transactions.len(), 3);
    assert_eq!((transactions[0].id, transactions[0].amount), (earned, 1000));
    assert_eq!((transactions[1].id, transactions[1].amount), (eaten, -30));
    assert_eq!((transactions[2].id, transactions[2].amount), (more, -45));
    assert_eq!(transactions[1].description, "lunch");
    assert_eq!(transactions[1].timestamp, 22);
    assert_eq!(transactions[1].transfer, None);
    assert_eq!(transactions[1].meta_info, MetaInfo::new(7, 23));
    assert_eq!(balance(budget, fixture.wallet), 925);
    assert_eq!(balance(budget, fixture.bank), 0);
    assert_balanced(budget);
}

#[test]
fn add_transaction_needs_account_and_category() {
    let mut fixture = fixture();
    let budget = &mut fixture.budget;
    let missing = id(9, 9);
    assert_eq!(
        budget.add_transaction(missing, fixture.food, text("x"), 1, 1, 1).unwrap_err().kind,
        ErrorKind::EntityNotFound
    );
    assert_eq!(
        budget.add_transaction(fixture.wallet, missing, text("x"), 1, 1, 1).unwrap_err().kind,
        ErrorKind::EntityNotFound
    );
    budget.remove_category(fixture.food, false, 30).unwrap();
    assert_eq!(
        budget.add_transaction(fixture.wallet, fixture.food, text("x"), 1, 1, 1).unwrap_err().kind,
        ErrorKind::EntityNotFound
    );
    assert!(budget.transactions().is_empty());
}

#[test]
fn add_transaction_refuses_what_does_not_fit() {
    let mut fixture = fixture();
    let budget = &mut fixture.budget;
    assert_eq!(
        budget.add_transaction(fixture.wallet, fixture.salary, text("x"), isize::MIN, 1, 1).unwrap_err().kind,
        ErrorKind::ValueOutOfRange
    );
    budget.add_transaction(fixture.wallet, fixture.salary, text("all"), isize::MAX, 1, 1).unwrap();
    let before = budget.snapshot();
    assert_eq!(
        budget.add_transaction(fixture.wallet, fixture.salary, text("more"), 1, 2, 2).unwrap_err().kind,
        ErrorKind::ValueOutOfRange
    );
    assert_eq!(budget.snapshot(), before);
    assert_eq!(balance(budget, fixture.wallet), isize::MAX);
    budget.add_transaction(fixture.wallet, fixture.food, text("less"), 5, 3, 3).unwrap();
    assert_eq!(balance(budget, fixture.wallet), isize::MAX - 5);
}

#[test]
fn add_plan_needs_an_outcome_category_and_a_positive_limit() {
    let mut fixture = fixture();
    let budget = &mut fixture.budget;
    assert_eq!(
        budget.add_plan(id(9, 9), text("p"), 100, 1).unwrap_err().kind,
        ErrorKind::EntityNotFound
    );
    assert_eq!(
        budget.add_plan(fixture.salary, text("p"), 100, 1).unwrap_err().kind,
        ErrorKind::PlanNeedsOutcomeCategory
    );
    assert_eq!(
        budget.add_plan(fixture.food, text("p"), 0, 1).unwrap_err().kind,
        ErrorKind::ValueOutOfRange
    );
    assert_eq!(
        budget.add_plan(fixture.food, text("p"), -5, 1).unwrap_err().kind,
        ErrorKind::ValueOutOfRange
    );
    assert!(budget.plans().is_empty());
    let plan = budget.add_plan(fixture.food, text("Eat less"), 300, 40).unwrap();
    let stored = budget.plan(plan).unwrap();
    assert_eq!(stored.category_id, fixture.food);
    assert_eq!(stored.name, "Eat less");
    assert_eq!(stored.amount_limit, 300);
    assert_eq!(stored.meta_info, MetaInfo::new(7, 40));
}

#[test]
fn add_account_books_the_initial_balance() {
    let mut budget = Budget::new(7);
    let rich = budget.add_account(text("Rich"), 500, 10).unwrap();
    let poor = budget.add_account(text("Poor"), -200, 11).unwrap();
    let empty = budget.add_account(text("Empty"), 0, 12).unwrap();
    assert_eq!((rich, poor, empty), (id(7, 0), id(7, 2), id(7, 4)));
    assert_eq!(balance(&budget, rich), 500);
    assert_eq!(balance(&budget, poor), -200);
    assert_eq!(balance(&budget, empty), 0);
    let transactions = budget.transactions();
    assert_eq!(transactions.len(), 2);
    assert_eq!(transactions[0].id, id(7, 1));
    assert_eq!(transactions[0].account_id, rich);
    assert_eq!(transactions[0].category_id, Budget::transfer_income());
    assert_eq!(transactions[0].amount, 500);
    assert_eq!(transactions[0].description, "Initial balance");
    assert_eq!(transactions[0].timestamp, 10);
    assert_eq!(transactions[1].category_id, Budget::transfer_outcome());
    assert_eq!(transactions[1].amount, -200);
    assert_balanced(&budget);
}

#[test]
fn add_account_needs_the_built_in_category_for_a_balance() {
    let mut budget = Budget::new(7);
    budget.remove_category(Budget::transfer_income(), false, 5).unwrap();
    assert_eq!(budget.add_account(text("Rich"), 500, 10).unwrap_err().kind, ErrorKind::EntityNotFound);
    assert!(budget.accounts().is_empty());
    budget.add_account(text("Poor"), -500, 10).unwrap();
    budget.add_account(text("Empty"), 0, 10).unwrap();
}

#[test]
fn add_transfer_moves_the_size_of_the_amount() {
    let mut fixture = fixture();
    let budget = &mut fixture.budget;
    budget.add_transaction(fixture.wallet, fixture.salary, text("pay"), 1000, 20, 21).unwrap();
    let transfer = budget.add_transfer(-300, fixture.wallet, fixture.bank, 30, 31).unwrap();
    assert_eq!(balance(budget, fixture.wallet), 700);
    assert_eq!(balance(budget, fixture.bank), 300);
    let legs = budget.transactions_of(fixture.bank);
    assert_eq!(legs.len(), 1);
    assert_eq!(legs[0].amount, 300);
    assert_eq!(legs[0].transfer, Some(transfer));
    assert_eq!(legs[0].category_id, Budget::transfer_income());
    assert_eq!(legs[0].description, "Transfer");
    let out = &budget.transactions_of(fixture.wallet)[1];
    assert_eq!(out.id, transfer);
    assert_eq!(out.amount, -300);
    assert_eq!(out.transfer, Some(transfer));
    assert_eq!(out.category_id, Budget::transfer_outcome());
    assert_balanced(budget);
}

#[test]
fn add_transfer_refuses_one_account_twice() {
    let mut fixture = fixture();
    let budget = &mut fixture.budget;
    assert_eq!(
        budget.add_transfer(10, fixture.wallet, fixture.wallet, 1, 1).unwrap_err().kind,
        ErrorKind::TransferWithinAccount
    );
    assert_eq!(
        budget.add_transfer(10, id(9, 9), id(9, 9), 1, 1).unwrap_err().kind,
        ErrorKind::TransferWithinAccount
    );
    assert_eq!(
        budget.add_transfer(10, fixture.wallet, id(9, 9), 1, 1).unwrap_err().kind,
        ErrorKind::EntityNotFound
    );
    assert_eq!(
        budget.add_transfer(isize::MIN, fixture.wallet, fixture.bank, 1, 1).unwrap_err().kind,
        ErrorKind::ValueOutOfRange
    );
    assert!(budget.transactions().is_empty());
}

#[test]
fn remove_transaction_restores_the_balance() {
    let mut fixture = fixture();
    let budget = &mut fixture.budget;
    budget.add_transaction(fixture.wallet, fixture.salary, text("pay"), 1000, 20, 21).unwrap();
    let lunch = budget.add_transaction(fixture.wallet, fixture.food, text("lunch"), 30, 22, 23).unwrap();
    assert_eq!(balance(budget, fixture.wallet), 970);
    budget.remove_transaction(lunch, 50).unwrap();
    assert_eq!(balance(budget, fixture.wallet), 1000);
    assert_eq!(budget.transactions().len(), 1);
    assert_eq!(budget.remove_transaction(lunch, 51).unwrap_err().kind, ErrorKind::EntityNotFound);
    assert_eq!(budget.remove_transaction(id(9, 9), 51).unwrap_err().kind, ErrorKind::EntityNotFound);
    let removed = &budget.snapshot().transactions[1];
    assert_eq!(removed.id, lunch);
    assert_eq!(
        removed.meta_info,
        MetaInfo { instance_id: 7, created_at: 23, modified_at: 50, deleted_at: Some(50) }
    );
    assert_balanced(budget);
}

#[test]
fn remove_transaction_takes_both_halves_of_a_transfer() {
    let mut fixture = fixture();
    let budget = &mut fixture.budget;
    budget.add_transaction(fixture.wallet, fixture.salary, text("pay"), 1000, 20, 21).unwrap();
    let transfer = budget.add_transfer(300, fixture.wallet, fixture.bank, 30, 31).unwrap();
    let credit = budget.transactions_of(fixture.bank)[0].id;
    budget.remove_transaction(credit, 40).unwrap();
    assert_eq!(balance(budget, fixture.wallet), 1000);
    assert_eq!(balance(budget, fixture.bank), 0);
    assert_eq!(budget.transactions().len(), 1);
    assert_eq!(budget.remove_transaction(transfer, 41).unwrap_err().kind, ErrorKind::EntityNotFound);
}

#[test]
fn removal_is_a_later_version_even_when_the_clock_is_not() {
    let mut fixture = fixture();
    let budget = &mut fixture.budget;
    let lunch = budget.add_transaction(fixture.wallet, fixture.food, text("lunch"), 30, 22, 100).unwrap();
    budget.remove_transaction(lunch, 5).unwrap();
    let removed = &budget.snapshot().transactions[0];
    assert_eq!(removed.meta_info.modified_at, 101);
    assert_eq!(removed.meta_info.deleted_at, Some(101));
    let late = budget.add_transaction(fixture.wallet, fixture.food, text("late"), 30, 22, i64::MAX).unwrap();
    assert_eq!(budget.remove_transaction(late, 7).unwrap_err().kind, ErrorKind::ValueOutOfRange);
    assert_eq!(balance(budget, fixture.wallet), -30);
}

#[test]
fn remove_category_without_force_fails_on_dependents() {
    let mut fixture = fixture();
    let budget = &mut fixture.budget;
    let lunch = budget.add_transaction(fixture.wallet, fixture.food, text("lunch"), 30, 22, 23).unwrap();
    let plan = budget.add_plan(fixture.rent, text("Rent"), 900, 24).unwrap();
    assert_eq!(
        budget.remove_category(fixture.food, false, 30).unwrap_err().kind,
        ErrorKind::ReferentialConflict
    );
    assert_eq!(
        budget.remove_category(fixture.rent, false, 30).unwrap_err().kind,
        ErrorKind::ReferentialConflict
    );
    assert!(budget.category(fixture.food).is_ok());
    assert_eq!(budget.remove_category(id(9, 9), true, 30).unwrap_err().kind, ErrorKind::EntityNotFound);
    budget.remove_transaction(lunch, 31).unwrap();
    budget.remove_plan(plan, 31).unwrap();
    budget.remove_category(fixture.food, false, 32).unwrap();
    budget.remove_category(fixture.rent, false, 32).unwrap();
    assert_eq!(budget.category(fixture.food).unwrap_err().kind, ErrorKind::EntityNotFound);
    assert_eq!(budget.remove_category(fixture.food, true, 33).unwrap_err().kind, ErrorKind::EntityNotFound);
}

#[test]
fn remove_category_with_force_removes_dependents() {
    let mut fixture = fixture();
    let budget = &mut fixture.budget;
    budget.add_transaction(fixture.wallet, fixture.salary, text("pay"), 1000, 20, 21).unwrap();
    budget.add_transaction(fixture.wallet, fixture.food, text("lunch"), 30, 22, 23).unwrap();
    budget.add_transaction(fixture.bank, fixture.food, text("dinner"), 40, 22, 23).unwrap();
    budget.add_plan(fixture.food, text("Eat less"), 300, 24).unwrap();
    let other = budget.add_plan(fixture.rent, text("Rent"), 900, 24).unwrap();
    budget.remove_category(fixture.food, true, 50).unwrap();
    assert!(budget.transactions_with(fixture.food).is_empty());
    assert_eq!(budget.transactions().len(), 1);
    assert_eq!(budget.plans().len(), 1);
    assert_eq!(budget.plans()[0].id, other);
    assert_eq!(balance(budget, fixture.wallet), 1000);
    assert_eq!(balance(budget, fixture.bank), 0);
    let snapshot = budget.snapshot();
    assert_eq!(snapshot.transactions.len(), 3);
    assert_eq!(snapshot.transactions[1].meta_info.deleted_at, Some(50));
    assert_eq!(snapshot.transactions[2].meta_info.deleted_at, Some(50));
    assert_eq!(snapshot.plans[0].meta_info.deleted_at, Some(50));
    assert_eq!(snapshot.plans[1].meta_info.deleted_at, None);
    assert_balanced(budget);
}

#[test]
fn remove_account_cascades_only_with_force() {
    let mut fixture = fixture();
    let budget = &mut fixture.budget;
    budget.add_transaction(fixture.wallet, fixture.salary, text("pay"), 1000, 20, 21).unwrap();
    budget.add_transfer(300, fixture.wallet, fixture.bank, 30, 31).unwrap();
    assert_eq!(
        budget.remove_account(fixture.wallet, false, 40).unwrap_err().kind,
        ErrorKind::ReferentialConflict
    );
    assert_eq!(budget.remove_account(id(9, 9), true, 40).unwrap_err().kind, ErrorKind::EntityNotFound);
    budget.remove_account(fixture.wallet, true, 41).unwrap();
    assert_eq!(budget.account(fixture.wallet).unwrap_err().kind, ErrorKind::EntityNotFound);
    assert_eq!(budget.accounts().len(), 1);
    assert!(budget.transactions().is_empty());
    assert_eq!(balance(budget, fixture.bank), 0);
    budget.remove_account(fixture.bank, false, 42).unwrap();
    assert!(budget.accounts().is_empty());
}

#[test]
fn balance_is_the_sum_after_any_sequence() {
    let mut fixture = fixture();
    let budget = &mut fixture.budget;
    let mut made = Vec::new();
    let mut seed: u64 = 12345;
    for step in 0..200i64 {
        seed = seed.wrapping_mul(6364136223846793005).wrapping_add(1442695040888963407);
        let pick = (seed >> 33) % 5;
        let amount = ((seed >> 40) % 1000) as isize;
        let account = if seed & 1 == 0 { fixture.wallet } else { fixture.bank };
        match pick {
            0 => made.push(budget.add_transaction(account, fixture.salary, text("in"), amount, step, step).unwrap()),
            1 => made.push(budget.add_transaction(account, fixture.food, text("out"), amount, step, step).unwrap()),
            2 => made.push(budget.add_transfer(amount, fixture.wallet, fixture.bank, step, step).unwrap()),
            3 => {
                if !made.is_empty() {
                    let at = (seed >> 20) as usize % made.len();
                    let _ = budget.remove_transaction(made.swap_remove(at), step);
                }
            }
            _ => budget.clean_removed(),
        }
        assert_balanced(budget);
    }
}

#[test]
fn clean_removed_drops_what_is_removed_and_is_idempotent() {
    let mut fixture = fixture();
    let budget = &mut fixture.budget;
    budget.add_transaction(fixture.wallet, fixture.salary, text("pay"), 1000, 20, 21).unwrap();
    let lunch = budget.add_transaction(fixture.wallet, fixture.food, text("lunch"), 30, 22, 23).unwrap();
    budget.add_plan(fixture.rent, text("Rent"), 900, 24).unwrap();
    budget.remove_transaction(lunch, 30).unwrap();
    budget.remove_category(fixture.rent, true, 31).unwrap();
    budget.remove_account(fixture.bank, false, 32).unwrap();
    assert_eq!(budget.snapshot().transactions.len(), 2);
    budget.clean_removed();
    let once = budget.snapshot();
    assert_eq!(once.transactions.len(), 1);
    assert_eq!(once.accounts.len(), 1);
    assert_eq!(once.categories.len(), 4);
    assert!(once.plans.is_empty());
    budget.clean_removed();
    assert_eq!(budget.snapshot(), once);
    assert_eq!(balance(budget, fixture.wallet), 1000);
    assert_eq!(budget.add_category(text("New"), CategoryType::Income, 40).unwrap(), id(7, 8));
}

#[test]
fn queries_choose_by_account_category_and_window() {
    let mut fixture = fixture();
    let budget = &mut fixture.budget;
    let a = budget.add_transaction(fixture.wallet, fixture.salary, text("a"), 10, 100, 1).unwrap();
    let b = budget.add_transaction(fixture.wallet, fixture.food, text("b"), 20, 200, 1).unwrap();
    let c = budget.add_transaction(fixture.bank, fixture.food, text("c"), 30, 300, 1).unwrap();
    let d = budget.add_transaction(fixture.bank, fixture.rent, text("d"), 40, 400, 1).unwrap();
    budget.remove_transaction(d, 2).unwrap();
    let ids = |rows: Vec<bdgt::storage::Transaction>| rows.iter().map(|row| row.id).collect::<Vec<_>>();
    assert_eq!(ids(budget.transactions()), vec![a, b, c]);
    assert_eq!(ids(budget.transactions_of(fixture.wallet)), vec![a, b]);
    assert_eq!(ids(budget.transactions_with(fixture.food)), vec![b, c]);
    assert_eq!(ids(budget.transactions_between(200, 300)), vec![b]);
    assert_eq!(ids(budget.transactions_between(100, 301)), vec![a, b, c]);
    assert_eq!(ids(budget.transactions_between(300, 200)), Vec::<Id>::new());
    assert_eq!(ids(budget.transactions_of_between(fixture.bank, 0, 1000)), vec![c]);
    assert_eq!(ids(budget.transactions_with_between(fixture.food, 200, 300)), vec![b]);
    let query = Query {
        account: Some(fixture.bank),
        category: Some(fixture.food),
        window: Some(TimeWindow { start: 300, end: 301 }),
    };
    assert_eq!(ids(budget.select(&query)), vec![c]);
    assert_eq!(budget.total(&query), Some(-30));
    assert_eq!(budget.total(&Query { account: None, category: None, window: None }), Some(-40));
    assert_eq!(budget.categories_of(CategoryType::Outcome).len(), 3);
    assert_eq!(budget.categories_of(CategoryType::Income).len(), 2);
}

#[test]
fn changes_since_gives_what_was_written_later() {
    let mut fixture = fixture();
    let budget = &mut fixture.budget;
    let lunch = budget.add_transaction(fixture.wallet, fixture.food, text("lunch"), 30, 22, 23).unwrap();
    budget.add_transaction(fixture.wallet, fixture.food, text("dinner"), 40, 24, 25).unwrap();
    budget.remove_transaction(lunch, 50).unwrap();
    let changes = budget.changes_since(11);
    assert!(changes.accounts.is_empty());
    assert!(changes.categories.is_empty());
    assert_eq!(changes.transactions.len(), 2);
    let later = budget.changes_since(25);
    assert_eq!(later.transactions.len(), 1);
    assert_eq!(later.transactions[0].id, lunch);
    assert_eq!(budget.changes_since(i64::MIN), budget.snapshot());
    assert!(budget.changes_since(50).transactions.is_empty());
    assert_eq!(budget.changes_since(10).categories.len(), 3);
    assert_eq!(budget.changes_since(9).accounts.len(), 2);
}
