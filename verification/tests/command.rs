use bdgt::budget::Budget;
use bdgt::command::add_account::{AccountDraft, AddAccount};
use bdgt::command::add_category::{AddCategory, CategoryDraft};
use bdgt::command::add_plan::{AddPlan, PlanDraft};
use bdgt::command::add_transaction::{AddTransaction, Parameters, TransactionDraft};
use bdgt::command::common::{
    category_type_by_index, category_type_to_string, category_types, normalize_amount_by_category,
    normalized_amount, selected,
};
use bdgt::command::initialize::{ensure_location, Initialize};
use bdgt::command::remove::RemoveAccount;
use bdgt::command::service::{Service, Work};
use bdgt::command::sync::Sync;
use bdgt::command::transfer::{Transfer, TransferDraft};
use bdgt::command::{after_item, Decision, Question};
use bdgt::error::ErrorKind;
use bdgt::identity::{check_key, KeyFacts};
use bdgt::storage::CategoryType;

fn text(value: &str) -> String {
    value.to_string()
}

fn budget() -> Budget {
    let mut budget = Budget::new(7);
    budget.add_account(text("Wallet"), 0, 1).unwrap();
    budget.add_account(text("Bank"), 0, 1).unwrap();
    budget.add_category(text("Food"), CategoryType::Outcome, 1).unwrap();
    budget
}

#[test]
fn category_types_are_income_and_outcome() {
    assert_eq!(category_types(), vec!["Income", "Outcome"]);
}

#[test]
fn category_type_by_index_follows_the_list() {
    assert_eq!(category_type_by_index(0).unwrap(), CategoryType::Income);
    assert_eq!(category_type_by_index(1).unwrap(), CategoryType::Outcome);
    let error = category_type_by_index(2).unwrap_err();
    assert_eq!(error.kind, ErrorKind::ValueOutOfRange);
    assert_eq!(error.message, "Value is out of range");
    assert_eq!(error.extra.as_deref(), Some("index: 2"));
    assert_eq!(
        category_type_by_index(usize::MAX).unwrap_err().extra,
        Some(format!("index: {}", usize::MAX))
    );
    assert_eq!(category_type_by_index(usize::MAX).unwrap_err().kind, ErrorKind::ValueOutOfRange);
    for (index, name) in category_types().into_iter().enumerate() {
        assert_eq!(category_type_to_string(category_type_by_index(index).unwrap()), name);
    }
}

#[test]
fn normalize_amount_by_category_sets_the_sign() {
    assert_eq!(normalize_amount_by_category(15, CategoryType::Income), 15);
    assert_eq!(normalize_amount_by_category(-15, CategoryType::Income), 15);
    assert_eq!(normalize_amount_by_category(15, CategoryType::Outcome), -15);
    assert_eq!(normalize_amount_by_category(-15, CategoryType::Outcome), -15);
    assert_eq!(normalize_amount_by_category(0, CategoryType::Outcome), 0);
    assert_eq!(normalize_amount_by_category(isize::MAX, CategoryType::Outcome), -isize::MAX);
    assert_eq!(normalize_amount_by_category(isize::MIN + 1, CategoryType::Income), isize::MAX);
    assert_eq!(normalized_amount(-3, CategoryType::Outcome).unwrap(), -3);
    assert_eq!(normalized_amount(isize::MIN, CategoryType::Income).unwrap_err().kind, ErrorKind::ValueOutOfRange);
}

#[test]
fn questions_about_another_item_offer_a_yes() {
    let questions = [
        (AddAccount::needs_another_account(), "Do you want to add another account?"),
        (AddCategory::needs_another_category(), "Do you want to add another category?"),
        (AddPlan::needs_another_plan(), "Do you want to add another plan?"),
        (AddTransaction::needs_another_transaction(), "Do you want to add another transaction?"),
        (Transfer::needs_another_transfer(), "Do you want to add another transfer?"),
    ];
    for (question, prompt) in questions {
        assert_eq!(question, Question { prompt, default: true });
    }
}

#[test]
fn after_item_asks_only_where_several_are_wanted() {
    let question = AddAccount::needs_another_account();
    assert_eq!(after_item(true, question), Decision::Ask(question));
    assert_eq!(after_item(false, question), Decision::Decided(false));
}

#[test]
fn service_confirmations_are_skipped_with_force() {
    assert_eq!(Service::confirm_with_prompt("Sure?", true), Decision::Decided(true));
    assert_eq!(
        Service::confirm_with_prompt("Sure?", false),
        Decision::Ask(Question { prompt: "Sure?", default: false })
    );
    let forced = Service::parse_args(true, true);
    let asked = Service::parse_args(false, false);
    assert_eq!(Service::enter(&forced), Decision::Decided(true));
    assert_eq!(
        Service::enter(&asked),
        Decision::Ask(Question { prompt: "Do you actually NEED to enter service mode?", default: false })
    );
    assert_eq!(Service::work(&forced), Work::Cleanup);
    assert_eq!(Service::work(&asked), Work::Nothing);
    assert_eq!(Service::cleanup(true), Decision::Decided(true));
    assert_eq!(
        Service::cleanup(false),
        Decision::Ask(Question { prompt: "You will be unable to sync removed items. Proceed?", default: false })
    );
}

#[test]
fn add_transaction_reads_the_flags() {
    let flags = [
        ((true, false), Some(CategoryType::Income)),
        ((false, true), Some(CategoryType::Outcome)),
        ((false, false), None),
        ((true, true), None),
    ];
    for ((income, outcome), category_type) in flags {
        assert_eq!(
            AddTransaction::parse_args(true, false, income, outcome),
            Parameters { multi: true, full: false, category_type }
        );
    }
}

#[test]
fn add_transaction_needs_accounts_then_categories() {
    assert_eq!(AddTransaction::check_lists(0, 0).unwrap_err().kind, ErrorKind::NoAccounts);
    assert_eq!(AddTransaction::check_lists(0, 3).unwrap_err().kind, ErrorKind::NoAccounts);
    assert_eq!(AddTransaction::check_lists(2, 0).unwrap_err().kind, ErrorKind::NoCategories);
    assert!(AddTransaction::check_lists(1, 1).is_ok());
}

#[test]
fn plans_need_categories_and_transfers_need_accounts() {
    assert_eq!(AddPlan::check_lists(0).unwrap_err().kind, ErrorKind::NoCategories);
    assert!(AddPlan::check_lists(1).is_ok());
    assert_eq!(Transfer::check_lists(0).unwrap_err().kind, ErrorKind::NoAccounts);
    assert!(Transfer::check_lists(2).is_ok());
}

#[test]
fn input_transaction_takes_the_selected_rows() {
    let budget = budget();
    let accounts = budget.accounts();
    let categories = budget.categories();
    let draft = AddTransaction::input_transaction(&accounts, &categories, 2, 1, text("lunch"), 30, 500).unwrap();
    assert_eq!(
        draft,
        TransactionDraft {
            timestamp: 500,
            description: text("lunch"),
            account_id: accounts[1].id,
            category_id: categories[2].id,
            amount: -30,
        }
    );
    let income = AddTransaction::input_transaction(&accounts, &categories, 0, 0, text("gift"), -30, 500).unwrap();
    assert_eq!(income.amount, 30);
    for (category, account, amount) in [(3, 0, 1), (0, 2, 1), (0, 0, isize::MIN)] {
        let error = AddTransaction::input_transaction(&accounts, &categories, category, account, text("x"), amount, 1);
        assert_eq!(error.unwrap_err().kind, ErrorKind::ValueOutOfRange);
    }
}

#[test]
fn timestamp_of_takes_the_reading_before_the_present() {
    assert_eq!(AddTransaction::timestamp_of(None, 77).unwrap(), 77);
    assert_eq!(AddTransaction::timestamp_of(Some(Ok(5)), 77).unwrap(), 5);
    let refused = Err(bdgt::error::Error::new(ErrorKind::ParseError));
    assert_eq!(AddTransaction::timestamp_of(Some(refused), 77).unwrap_err().kind, ErrorKind::ParseError);
    let other = Err(bdgt::error::Error::from_message("no"));
    assert_eq!(AddTransaction::timestamp_of(Some(other), 77).unwrap_err().message, "no");
}

#[test]
fn timestamp_is_the_entered_one_or_the_present() {
    assert_eq!(AddTransaction::timestamp(Some("2024-01-01 00:00:00 UTC")).unwrap(), 1704067200);
    assert_eq!(AddTransaction::timestamp(Some("soon")).unwrap_err().kind, ErrorKind::ParseError);
    assert_eq!(
        AddTransaction::timestamp(Some("2021-02-21 +9900")).unwrap_err().kind,
        ErrorKind::ParseError
    );
    let present = AddTransaction::timestamp(None).unwrap();
    assert!(present > 1704067200);
}

#[test]
fn input_plan_negates_a_negative_limit() {
    let budget = budget();
    let categories = budget.categories();
    assert_eq!(
        AddPlan::input_plan(&categories, 2, text("Eat less"), -300).unwrap(),
        PlanDraft { category_id: categories[2].id, name: text("Eat less"), amount_limit: 300 }
    );
    assert_eq!(AddPlan::input_plan(&categories, 2, text("p"), 300).unwrap().amount_limit, 300);
    assert_eq!(AddPlan::input_plan(&categories, 2, text("p"), 0).unwrap().amount_limit, 0);
    assert_eq!(AddPlan::input_plan(&categories, 3, text("p"), 1).unwrap_err().kind, ErrorKind::ValueOutOfRange);
    assert_eq!(
        AddPlan::input_plan(&categories, 0, text("p"), isize::MIN).unwrap_err().kind,
        ErrorKind::ValueOutOfRange
    );
}

#[test]
fn input_account_and_category_keep_what_was_entered() {
    assert_eq!(AddAccount::input_account(text("Wallet"), -5), AccountDraft { name: text("Wallet"), balance: -5 });
    assert_eq!(
        AddCategory::input_category(1, text("Food")).unwrap(),
        CategoryDraft { name: text("Food"), category_type: CategoryType::Outcome }
    );
    assert_eq!(
        AddCategory::input_category(0, text("Pay")).unwrap().category_type,
        CategoryType::Income
    );
    assert_eq!(AddCategory::input_category(2, text("x")).unwrap_err().kind, ErrorKind::ValueOutOfRange);
}

#[test]
fn input_transfer_takes_the_selected_accounts() {
    let budget = budget();
    let accounts = budget.accounts();
    let draft = Transfer::input_transfer(&accounts, 1, 0, -70, 9).unwrap();
    assert_eq!(draft, TransferDraft { amount: -70, from: accounts[1].id, to: accounts[0].id, timestamp: 9 });
    assert!(!Transfer::is_idle(&draft));
    assert!(Transfer::is_idle(&Transfer::input_transfer(&accounts, 1, 1, 5, 9).unwrap()));
    assert_eq!(Transfer::input_transfer(&accounts, 2, 0, 5, 9).unwrap_err().kind, ErrorKind::ValueOutOfRange);
    assert_eq!(Transfer::input_transfer(&accounts, 0, 2, 5, 9).unwrap_err().kind, ErrorKind::ValueOutOfRange);
    assert_eq!(Transfer::parse_args(true, false).multi, true);
    assert_eq!(Transfer::parse_args(true, false).full, false);
}

#[test]
fn selected_is_the_row_at_the_place() {
    let budget = budget();
    let accounts = budget.accounts();
    assert_eq!(selected(&accounts, 0).unwrap().id, accounts[0].id);
    assert_eq!(selected(&accounts, 1).unwrap().id, accounts[1].id);
    assert_eq!(selected(&accounts, 2).unwrap_err().kind, ErrorKind::ValueOutOfRange);
    assert_eq!(
        RemoveAccount::force_question(),
        Question { prompt: "Remove account with all corresponding transactions?", default: false }
    );
}

#[test]
fn sync_synchronizes_unless_told_otherwise() {
    let plain = Sync::parse_args(None, None);
    assert_eq!((plain.remote.clone(), plain.no_sync), (None, false));
    assert!(Sync::synchronizes(&plain));
    let moved = Sync::parse_args(Some(text("git@example.org:ledger")), Some(true));
    assert_eq!(moved.remote, Some(text("git@example.org:ledger")));
    assert!(!Sync::synchronizes(&moved));
    assert!(Sync::synchronizes(&Sync::parse_args(Some(text("url")), Some(false))));
}

#[test]
fn passphrase_is_required() {
    assert!(Sync::check_passphrase("correct horse").is_ok());
    assert_eq!(Sync::check_passphrase("").unwrap_err().kind, ErrorKind::PassphraseRequired);
    let request = Sync::passphrase_request();
    assert_eq!(request.description, "Please enter the passphrase to unlock sync storage");
    assert_eq!(request.prompt, "Passphrase:");
    assert_eq!(request.required, "Passphrase is required");
}

#[test]
fn root_decides_whether_the_storage_is_initialized() {
    assert!(Initialize::ensure_fresh(false, "/home/me/.bdgt").is_ok());
    let error = Initialize::ensure_fresh(true, "/home/me/.bdgt").unwrap_err();
    assert_eq!(error.kind, ErrorKind::AlreadyInitialized);
    assert_eq!(error.message, "Application's storage is already initialized");
    assert_eq!(error.extra, Some(text("/home/me/.bdgt")));
    assert!(ensure_location(true, "/home/me/.bdgt").is_ok());
    let error = ensure_location(false, "/home/me/.bdgt").unwrap_err();
    assert_eq!(error.kind, ErrorKind::NotInitialized);
    assert_eq!(error.message, "Application's storage is not initialized yet");
    assert_eq!(error.extra, Some(text("/home/me/.bdgt")));
}

#[test]
fn key_must_be_fit() {
    let fit = KeyFacts { asymmetric: true, has_private_key: true, can_encrypt: true };
    assert!(check_key(Some(fit)).is_ok());
    assert_eq!(check_key(None).unwrap_err().kind, ErrorKind::KeyInvalid);
    for unfit in [
        KeyFacts { asymmetric: false, ..fit },
        KeyFacts { has_private_key: false, ..fit },
        KeyFacts { can_encrypt: false, ..fit },
    ] {
        assert_eq!(check_key(Some(unfit)).unwrap_err().kind, ErrorKind::KeyInvalid);
    }
}

#[test]
fn initialization_checks_the_root_before_the_key() {
    let fit = KeyFacts { asymmetric: true, has_private_key: true, can_encrypt: true };
    assert!(Initialize::ensure_ready(false, "/root", Some(fit)).is_ok());
    assert_eq!(Initialize::ensure_ready(false, "/root", None).unwrap_err().kind, ErrorKind::KeyInvalid);
    assert_eq!(
        Initialize::ensure_ready(true, "/root", None).unwrap_err().kind,
        ErrorKind::AlreadyInitialized
    );
    assert_eq!(
        Initialize::ensure_ready(true, "/root", Some(fit)).unwrap_err().kind,
        ErrorKind::AlreadyInitialized
    );
}
