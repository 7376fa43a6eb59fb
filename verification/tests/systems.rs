use ledger_engine::accounting::{AccountingSystem, FinancialTransaction};
use ledger_engine::analytics::{Analytics, AnalyticsError, Period};
use ledger_engine::crm::{CrmError, CrmSystem, CustomerStatus, CustomerUpdate, Preference, PreferenceSet};
use ledger_engine::dashboard::Dashboard;
use ledger_engine::employees::{
    Department, EmployeeError, EmployeeManager, EmployeeRole, EmployeeStatus, EmployeeUpdate,
    Permission,
};
use ledger_engine::errors::LedgerError;
use ledger_engine::inventory::InventoryManager;
use ledger_engine::journal::TransactionType;
use ledger_engine::loyalty::LoyaltyToken;
use ledger_engine::payments::PaymentProcessor;
use ledger_engine::payments::PaymentError;
use ledger_engine::payroll::PayrollSystem;
use ledger_engine::payroll::PayrollError;
use ledger_engine::pos::{PaymentMethod, PosError, PosSystem, SaleItem};
use ledger_engine::retail::{calculate_loyalty_points, RetailError};
use ledger_engine::tier::CustomerTier;
use ledger_engine::vendors::{VendorError, VendorManager};
use ledger_engine::journal::RecordFilter;
use ledger_engine::xmoney::{Currency, PaymentStatus, XMoneyToken};

const ADMIN: u64 = 1;
const ALICE: u64 = 21;
const BOB: u64 = 22;

fn empty_update() -> CustomerUpdate {
    CustomerUpdate { name: None, email: None, phone: None, preferences: None, status: None }
}

#[test]
fn accounting_report_follows_the_formulas() {
    let mut system = AccountingSystem::initialize(ADMIN);
    let sale = FinancialTransaction {
        transaction_id: String::from("tx-1"),
        from_account: String::from("customer"),
        to_account: String::from("store"),
        amount: 500,
        transaction_type: TransactionType::Revenue,
        description: String::from("sale"),
        timestamp: 1,
    };
    let rent = FinancialTransaction {
        transaction_id: String::from("tx-2"),
        from_account: String::from("store"),
        to_account: String::from("landlord"),
        amount: 200,
        transaction_type: TransactionType::Expense,
        description: String::from("rent"),
        timestamp: 2,
    };
    let vat = FinancialTransaction {
        transaction_id: String::from("tx-3"),
        from_account: String::from("store"),
        to_account: String::from("state"),
        amount: 50,
        transaction_type: TransactionType::Tax,
        description: String::from("vat"),
        timestamp: 3,
    };
    system.record_transaction(ADMIN, sale).unwrap();
    system.record_transaction(ADMIN, rent).unwrap();
    system.record_transaction(ADMIN, vat).unwrap();
    let report = system.generate_financial_report(String::from("q1")).unwrap();
    assert_eq!(report.total_revenue, 500);
    assert_eq!(report.total_expenses, 250);
    assert_eq!(report.net_income, 250);
    assert_eq!(report.assets, 1000);
    assert_eq!(report.liabilities, 250);
    assert_eq!(report.equity, 750);
    assert_eq!(report.cash_flow, 125);
    assert_eq!(system.calculate_profit_margin(String::from("q1")), Ok(50));
    let history = system.get_transaction_history(&String::from("landlord"));
    assert_eq!(history.len(), 1);
    assert_eq!(history[0].amount, 200);
}

#[test]
fn accounting_rejections_have_exact_kinds() {
    let mut system = AccountingSystem::initialize(ADMIN);
    let bad = FinancialTransaction {
        transaction_id: String::from("tx-0"),
        from_account: String::from("a"),
        to_account: String::from("b"),
        amount: 0,
        transaction_type: TransactionType::Revenue,
        description: String::from("zero"),
        timestamp: 1,
    };
    assert_eq!(system.record_transaction(BOB, bad.clone()), Err(LedgerError::Unauthorized));
    assert_eq!(system.record_transaction(ADMIN, bad), Err(LedgerError::InvalidAmount));
    assert_eq!(system.calculate_profit_margin(String::from("empty")), Ok(0));
    let sheet = system.get_balance_sheet();
    assert_eq!(sheet.len(), 8);
    assert_eq!(sheet[0].0, "cash");
    assert_eq!(sheet[0].1, 50_000_000);
    assert_eq!(system.hello(), "Hello from Accounting System!");
}

#[test]
fn xmoney_supply_is_conserved_by_transfers() {
    let mut token = XMoneyToken::initialize(ADMIN, 1_000, 1).unwrap();
    assert_eq!(token.balance_of(ADMIN), 1_000);
    assert_eq!(token.get_total_supply(), Ok(1_000));
    token.transfer(ADMIN, ALICE, 400, 2).unwrap();
    assert_eq!(token.balance_of(ADMIN), 600);
    assert_eq!(token.balance_of(ALICE), 400);
    assert_eq!(token.get_total_supply(), Ok(1_000));
    assert_eq!(token.transfer(ALICE, BOB, 500, 3), Err(LedgerError::InsufficientBalance));
    assert_eq!(token.transfer(ALICE, BOB, 0, 4), Err(LedgerError::InvalidAmount));
    assert_eq!(token.balance_of(ALICE), 400);
}

#[test]
fn xmoney_journals_every_successful_mutation() {
    let mut token = XMoneyToken::initialize(ADMIN, 1_000, 1).unwrap();
    // the initial supply is itself journalled as a system-originated credit
    let records = token.query(&RecordFilter::all()).unwrap();
    assert_eq!(records.len(), 1);
    assert_eq!(records[0].origin, None);
    assert_eq!(records[0].destination, Some(ADMIN));
    assert_eq!(records[0].amount, 1_000);
    token.transfer(ADMIN, ALICE, 400, 2).unwrap();
    let records = token.query(&RecordFilter::all()).unwrap();
    assert_eq!(records.len(), 2);
    assert_eq!(records[1].origin, Some(ADMIN));
    assert_eq!(records[1].destination, Some(ALICE));
    assert_eq!(records[1].amount, 400);
    assert_eq!(records[1].category, TransactionType::Transfer);
    assert_eq!(records[1].timestamp, 2);
    // a failed transfer journals nothing
    assert_eq!(
        token.transfer(ALICE, BOB, 900, 3),
        Err(LedgerError::InsufficientBalance)
    );
    assert_eq!(token.query(&RecordFilter::all()).unwrap().len(), 2);
}

#[test]
fn xmoney_mint_is_admin_gated_and_journals_one_record() {
    let mut token = XMoneyToken::initialize(ADMIN, 1_000, 1).unwrap();
    assert_eq!(token.mint(ALICE, ALICE, 50, 2), Err(LedgerError::Unauthorized));
    assert_eq!(token.mint(ADMIN, ALICE, 0, 3), Err(LedgerError::InvalidAmount));
    token.mint(ADMIN, ALICE, 100, 4).unwrap();
    assert_eq!(token.balance_of(ALICE), 100);
    assert_eq!(token.balance_of(ADMIN), 1_000);
    assert_eq!(token.get_total_supply(), Ok(1_100));
    let records = token.query(&RecordFilter::all()).unwrap();
    assert_eq!(records.len(), 2);
    assert_eq!(records[1].origin, None);
    assert_eq!(records[1].destination, Some(ALICE));
    assert_eq!(records[1].amount, 100);
}

#[test]
fn xmoney_payment_records_match_the_transfer() {
    let mut token = XMoneyToken::initialize(ADMIN, 1_000, 1).unwrap();
    token.transfer(ADMIN, ALICE, 500, 2).unwrap();
    let payment = token
        .pay_with_xmoney(ALICE, BOB, 120, String::from("order-7"), 99)
        .unwrap();
    assert_eq!(payment.payment_id, "order-7");
    assert_eq!(payment.from, ALICE);
    assert_eq!(payment.to, BOB);
    assert_eq!(payment.amount, 120);
    assert_eq!(payment.currency, Currency::XMT);
    assert_eq!(payment.status, PaymentStatus::Completed);
    assert_eq!(payment.timestamp, 99);
    assert_eq!(token.balance_of(ALICE), 380);
    assert_eq!(token.balance_of(BOB), 120);
    // the payment's journal record carries the order identifier
    let records = token.query(&RecordFilter::all()).unwrap();
    assert_eq!(records.len(), 3);
    assert_eq!(records[2].origin, Some(ALICE));
    assert_eq!(records[2].destination, Some(BOB));
    assert_eq!(records[2].amount, 120);
    assert_eq!(records[2].description, "order-7");
    // a failed payment records nothing
    assert_eq!(
        token
            .pay_with_xmoney(ALICE, BOB, 10_000, String::from("order-8"), 100)
            .unwrap_err(),
        LedgerError::InsufficientBalance
    );
    assert_eq!(token.get_payment_history(ALICE).len(), 1);
    assert_eq!(token.get_merchant_payments(BOB).len(), 1);
    assert_eq!(token.get_customer_payments(ALICE).len(), 1);
    assert_eq!(token.get_customer_payments(BOB).len(), 0);
    assert_eq!(token.hello(), "Hello from XMoney Token!");
}

#[test]
fn crm_registration_and_duplicates() {
    let mut crm = CrmSystem::initialize(ADMIN);
    let customer = crm
        .register_customer(
            ADMIN,
            ALICE,
            String::from("Alice"),
            String::from("alice@example.com"),
            String::from("555-0100"),
            7,
        )
        .unwrap();
    assert_eq!(customer.customer_id, 0);
    assert_eq!(customer.loyalty_points, 100);
    assert_eq!(customer.customer_tier, CustomerTier::Bronze);
    assert_eq!(customer.status, CustomerStatus::Active);
    assert!(customer.preferences.email_notifications);
    assert!(customer.preferences.special_offers);
    assert!(!customer.preferences.sms_notifications);
    assert_eq!(
        crm.register_customer(
            ADMIN,
            ALICE,
            String::from("Alice Again"),
            String::from("alice@example.com"),
            String::from("555-0100"),
            8,
        )
        .unwrap_err(),
        CrmError::DuplicateCustomer
    );
    assert_eq!(
        crm.register_customer(
            BOB,
            BOB,
            String::from("Bob"),
            String::from("bob@example.com"),
            String::from("555-0101"),
            9,
        )
        .unwrap_err(),
        CrmError::Unauthorized
    );
    assert_eq!(crm.get_total_customers(), 1);
}

#[test]
fn crm_purchases_cross_the_silver_boundary_exactly() {
    let mut crm = CrmSystem::initialize(ADMIN);
    crm.register_customer(
        ADMIN,
        ALICE,
        String::from("Alice"),
        String::from("alice@example.com"),
        String::from("555-0100"),
        1,
    )
    .unwrap();
    let after_first = crm.record_purchase(ADMIN, ALICE, 999_999, 2).unwrap();
    assert_eq!(after_first.total_spent, 999_999);
    assert_eq!(after_first.customer_tier, CustomerTier::Bronze);
    let after_second = crm.record_purchase(ADMIN, ALICE, 1, 3).unwrap();
    assert_eq!(after_second.total_spent, 1_000_000);
    assert_eq!(after_second.customer_tier, CustomerTier::Silver);
    assert_eq!(after_second.total_orders, 2);
    // one point per ten thousand units, on top of the hundred for signing up
    assert_eq!(after_second.loyalty_points, 100 + 99);
    assert_eq!(after_second.last_purchase_date, 3);
}

#[test]
fn crm_update_is_a_field_by_field_patch() {
    let mut crm = CrmSystem::initialize(ADMIN);
    crm.register_customer(
        ADMIN,
        ALICE,
        String::from("Alice"),
        String::from("alice@example.com"),
        String::from("555-0100"),
        1,
    )
    .unwrap();
    let patched = crm
        .update_customer(
            ALICE,
            CustomerUpdate {
                name: Some(String::from("Alice B")),
                email: None,
                phone: None,
                preferences: Some(PreferenceSet {
                    sms_notifications: true,
                    ..PreferenceSet::none()
                }),
                status: Some(CustomerStatus::VIP),
            },
        )
        .unwrap();
    assert_eq!(patched.name, "Alice B");
    assert_eq!(patched.email, "alice@example.com");
    assert_eq!(patched.status, CustomerStatus::VIP);
    assert!(patched.preferences.holds(Preference::SMSNotifications));
    assert!(!patched.preferences.holds(Preference::EmailNotifications));
    assert_eq!(crm.update_customer(BOB, empty_update()).unwrap_err(), CrmError::CustomerNotFound);
    assert_eq!(crm.get_vip_customers().len(), 1);
    assert_eq!(crm.get_customers_by_tier(CustomerTier::Bronze).len(), 0);
    let counts = crm.get_customers_count_by_tier();
    assert_eq!(counts[0], (CustomerTier::Bronze, 1));
    assert_eq!(counts[1], (CustomerTier::Silver, 0));
    let ranking = crm.get_customer_ranking();
    assert_eq!(ranking.len(), 1);
    assert_eq!(crm.hello(), "Hello from CRM System!");
}

#[test]
fn crm_loyalty_points_are_admin_gated() {
    let mut crm = CrmSystem::initialize(ADMIN);
    crm.register_customer(
        ADMIN,
        ALICE,
        String::from("Alice"),
        String::from("alice@example.com"),
        String::from("555-0100"),
        1,
    )
    .unwrap();
    assert_eq!(crm.add_loyalty_points(ALICE, ALICE, 5).unwrap_err(), CrmError::Unauthorized);
    let granted = crm.add_loyalty_points(ADMIN, ALICE, 5).unwrap();
    assert_eq!(granted.loyalty_points, 105);
    assert_eq!(crm.record_purchase(ADMIN, ALICE, 0, 2).unwrap_err(), CrmError::InvalidAmount);
    assert_eq!(crm.record_purchase(ADMIN, BOB, 10, 2).unwrap_err(), CrmError::CustomerNotFound);
}

#[test]
fn capability_gate_names_the_exact_refusal() {
    let mut manager = EmployeeManager::initialize(ADMIN);
    assert_eq!(
        manager.check_permission(ALICE, Permission::ManageEmployees),
        Err(EmployeeError::EmployeeNotFound)
    );
    // authorization guards hiring too: an unknown principal cannot hire
    assert_eq!(
        manager
            .add_employee(
                ALICE,
                String::from("emp-1"),
                ALICE,
                String::from("Alice"),
                String::from("alice@example.com"),
                String::from("555-0100"),
                Department::Sales,
                String::from("Manager"),
                EmployeeRole::StoreManager,
                7,
                1,
            )
            .unwrap_err(),
        EmployeeError::EmployeeNotFound
    );
    manager
        .add_employee(
            ADMIN,
            String::from("emp-0"),
            ALICE,
            String::from("Alice"),
            String::from("alice@example.com"),
            String::from("555-0100"),
            Department::Executive,
            String::from("Founder"),
            EmployeeRole::SuperAdmin,
            10,
            0,
        )
        .unwrap();
    assert!(manager.has_permission(ALICE, Permission::SystemAdmin));
    let cashier = manager
        .add_employee(
            ALICE,
            String::from("emp-1"),
            BOB,
            String::from("Bob"),
            String::from("bob@example.com"),
            String::from("555-0101"),
            Department::Sales,
            String::from("Cashier"),
            EmployeeRole::Cashier,
            3,
            2,
        )
        .unwrap();
    assert_eq!(cashier.status, EmployeeStatus::Active);
    assert!(cashier.permissions.process_payments);
    assert!(!cashier.permissions.manage_employees);
    assert_eq!(
        manager.check_permission(BOB, Permission::ManageEmployees),
        Err(EmployeeError::InsufficientPermissions)
    );
    assert_eq!(manager.check_permission(BOB, Permission::ProcessPayments), Ok(()));
    manager.terminate_employee(ALICE, &String::from("emp-1")).unwrap();
    assert_eq!(
        manager.check_permission(BOB, Permission::ProcessPayments),
        Err(EmployeeError::EmployeeTerminated)
    );
}

#[test]
fn employee_update_rederives_capabilities_on_role_change() {
    let mut manager = EmployeeManager::initialize(ADMIN);
    manager
        .add_employee(
            ADMIN,
            String::from("emp-0"),
            ALICE,
            String::from("Alice"),
            String::from("alice@example.com"),
            String::from("555-0100"),
            Department::Executive,
            String::from("Founder"),
            EmployeeRole::SuperAdmin,
            10,
            0,
        )
        .unwrap();
    manager
        .add_employee(
            ALICE,
            String::from("emp-1"),
            BOB,
            String::from("Bob"),
            String::from("bob@example.com"),
            String::from("555-0101"),
            Department::Inventory,
            String::from("Clerk"),
            EmployeeRole::StockClerk,
            2,
            1,
        )
        .unwrap();
    let updated = manager
        .update_employee(
            ALICE,
            &String::from("emp-1"),
            EmployeeUpdate {
                name: None,
                email: None,
                phone: None,
                department: Some(Department::Sales),
                position: Some(String::from("Cashier")),
                status: None,
                role: Some(EmployeeRole::Cashier),
                salary_grade: Some(3),
            },
        )
        .unwrap();
    assert_eq!(updated.department, Department::Sales);
    assert_eq!(updated.role, EmployeeRole::Cashier);
    assert!(updated.permissions.process_payments);
    assert!(!updated.permissions.manage_inventory);
    assert_eq!(updated.salary_grade, 3);
    let fetched = manager.get_employee(&String::from("emp-1")).unwrap();
    assert_eq!(fetched.role, EmployeeRole::Cashier);
    let by_wallet = manager.get_employee_by_wallet(BOB).unwrap();
    assert_eq!(by_wallet.employee_id, "emp-1");
    assert_eq!(manager.get_employees_by_department(Department::Sales).len(), 1);
    assert_eq!(manager.get_all_employees().len(), 2);
    assert_eq!(manager.get_active_employees_count(), 2);
    assert_eq!(manager.hello(), "Hello from EmployeeManager!");
}

#[test]
fn pos_sale_totals_and_discounts() {
    let mut pos = PosSystem::initialize(ADMIN);
    let items = vec![
        SaleItem {
            sku: String::from("PROD_001"),
            name: String::from("Widget"),
            quantity: 2,
            unit_price: 300,
            total_price: 600,
        },
        SaleItem {
            sku: String::from("PROD_002"),
            name: String::from("Gadget"),
            quantity: 1,
            unit_price: 400,
            total_price: 400,
        },
    ];
    let sale = pos
        .create_sale(ALICE, Some(BOB), items, 100, PaymentMethod::Cash, 50)
        .unwrap();
    assert_eq!(sale.sale_id, 0);
    assert_eq!(sale.total_amount, 1_000);
    assert_eq!(sale.final_amount, 900);
    assert_eq!(pos.get_total_revenue(), 900);
    assert_eq!(pos.get_total_sales_count(), 1);
    let fetched = pos.get_sale(0).unwrap();
    assert_eq!(fetched.final_amount, 900);
    assert_eq!(pos.get_sale(1).unwrap_err(), PosError::SaleNotFound);
    assert_eq!(pos.get_sales_by_cashier(ALICE).len(), 1);
    assert_eq!(pos.get_sales_by_customer(BOB).len(), 1);
    assert_eq!(pos.get_sales_by_customer(ALICE).len(), 0);
    assert_eq!(pos.get_daily_sales(&String::from("today")).len(), 1);
    let stats = pos.get_payment_method_stats();
    assert_eq!(stats[0], (PaymentMethod::Cash, 900));
    assert_eq!(stats[1], (PaymentMethod::CreditCard, 0));
    assert_eq!(pos.hello(), "Hello from POS System!");
}

#[test]
fn pos_rejects_bad_sales_without_recording() {
    let mut pos = PosSystem::initialize(ADMIN);
    let free_item = vec![SaleItem {
        sku: String::from("PROD_003"),
        name: String::from("Freebie"),
        quantity: 1,
        unit_price: 0,
        total_price: 0,
    }];
    assert_eq!(
        pos.create_sale(ALICE, None, free_item, 0, PaymentMethod::Cash, 1).unwrap_err(),
        PosError::InvalidAmount
    );
    let one_item = vec![SaleItem {
        sku: String::from("PROD_004"),
        name: String::from("Cheap"),
        quantity: 1,
        unit_price: 50,
        total_price: 50,
    }];
    // a discount that swallows the whole price leaves nothing to charge
    assert_eq!(
        pos.create_sale(ALICE, None, one_item, 50, PaymentMethod::Cash, 2).unwrap_err(),
        PosError::InvalidAmount
    );
    assert_eq!(pos.get_total_sales_count(), 0);
    assert_eq!(pos.get_total_revenue(), 0);
}

#[test]
fn inventory_catalog_is_keyed_by_sku() {
    let mut inventory = InventoryManager::initialize(ADMIN);
    let product = inventory
        .add_product(
            ADMIN,
            String::from("SKU-1"),
            String::from("Widget"),
            500,
            10,
            BOB,
            String::from("Aisle 3"),
        )
        .unwrap();
    assert_eq!(product.stock_quantity, 10);
    assert_eq!(
        inventory
            .add_product(
                ADMIN,
                String::from("SKU-1"),
                String::from("Widget Again"),
                600,
                5,
                BOB,
                String::from("Aisle 4"),
            )
            .unwrap_err(),
        RetailError::DuplicateEntry
    );
    assert_eq!(
        inventory
            .add_product(
                ALICE,
                String::from("SKU-2"),
                String::from("Gadget"),
                700,
                3,
                BOB,
                String::from("Aisle 5"),
            )
            .unwrap_err(),
        RetailError::Unauthorized
    );
    let restocked = inventory.update_stock(ADMIN, &String::from("SKU-1"), 42).unwrap();
    assert_eq!(restocked.stock_quantity, 42);
    assert_eq!(restocked.price, 500);
    assert_eq!(
        inventory.update_stock(ADMIN, &String::from("SKU-9"), 1).unwrap_err(),
        RetailError::ProductNotFound
    );
    let fetched = inventory.get_product(&String::from("SKU-1")).unwrap();
    assert_eq!(fetched.stock_quantity, 42);
    assert_eq!(inventory.get_all_products().len(), 1);
}

#[test]
fn vendor_ratings_blend_and_stay_in_band() {
    let mut vendors = VendorManager::initialize(ADMIN);
    vendors
        .add_vendor(
            ADMIN,
            String::from("v-1"),
            String::from("Acme"),
            BOB,
            String::from("555-0200"),
            String::from("acme@example.com"),
            String::from("tools"),
        )
        .unwrap();
    assert_eq!(
        vendors
            .add_vendor(
                ADMIN,
                String::from("v-1"),
                String::from("Acme Again"),
                BOB,
                String::from("555-0200"),
                String::from("acme@example.com"),
                String::from("tools"),
            )
            .unwrap_err(),
        VendorError::DuplicateVendor
    );
    assert_eq!(
        vendors.rate_vendor(ALICE, &String::from("v-1"), 0).unwrap_err(),
        VendorError::InvalidRating
    );
    assert_eq!(
        vendors.rate_vendor(ALICE, &String::from("v-1"), 6).unwrap_err(),
        VendorError::InvalidRating
    );
    let first = vendors.rate_vendor(ALICE, &String::from("v-1"), 4).unwrap();
    assert_eq!(first.rating, 4);
    let second = vendors.rate_vendor(BOB, &String::from("v-1"), 1).unwrap();
    assert_eq!(second.rating, 2);
    let performance = vendors.get_vendor_performance(&String::from("v-1")).unwrap();
    assert_eq!(performance.average_rating, 2);
    assert_eq!(performance.total_orders, 0);
}

#[test]
fn vendor_register_supports_search_and_removal() {
    let mut vendors = VendorManager::initialize(ADMIN);
    vendors
        .add_vendor(
            ADMIN,
            String::from("v-1"),
            String::from("Acme"),
            BOB,
            String::from("555-0200"),
            String::from("acme@example.com"),
            String::from("tools"),
        )
        .unwrap();
    vendors
        .add_vendor(
            ADMIN,
            String::from("v-2"),
            String::from("Globex"),
            ALICE,
            String::from("555-0300"),
            String::from("globex@example.com"),
            String::from("toys"),
        )
        .unwrap();
    let with_sku = vendors
        .add_vendor_product(ADMIN, &String::from("v-1"), String::from("SKU-1"))
        .unwrap();
    assert_eq!(with_sku.products_supplied.len(), 1);
    let renamed = vendors
        .update_vendor(
            ADMIN,
            &String::from("v-2"),
            Some(String::from("Globex Corp")),
            None,
            None,
            None,
        )
        .unwrap();
    assert_eq!(renamed.name, "Globex Corp");
    assert_eq!(renamed.email, "globex@example.com");
    assert_eq!(vendors.get_vendors_by_category(&String::from("tools")).len(), 1);
    assert_eq!(vendors.search_vendors(&String::from("Acme")).len(), 1);
    let deactivated = vendors.set_vendor_status(ADMIN, &String::from("v-1"), false).unwrap();
    assert!(!deactivated.active);
    assert_eq!(
        vendors.rate_vendor(ALICE, &String::from("v-1"), 3).unwrap_err(),
        VendorError::VendorInactive
    );
    assert_eq!(vendors.get_vendors_by_category(&String::from("tools")).len(), 0);
    assert!(vendors.is_admin(ADMIN));
    assert!(!vendors.is_admin(ALICE));
    assert!(vendors.vendor_exists(&String::from("v-2")));
    vendors.remove_vendor(ADMIN, &String::from("v-2")).unwrap();
    assert!(!vendors.vendor_exists(&String::from("v-2")));
    assert_eq!(vendors.get_vendor_count(), 1);
    assert_eq!(vendors.get_all_vendors().len(), 1);
    assert_eq!(
        vendors.get_vendor(&String::from("v-2")).unwrap_err(),
        VendorError::VendorNotFound
    );
}

#[test]
fn payroll_register_is_admin_gated_and_unique() {
    let mut payroll = PayrollSystem::initialize(ADMIN);
    assert_eq!(
        payroll
            .add_employee(BOB, ALICE, String::from("Alice"), 90_000, String::from("Engineer"))
            .unwrap_err(),
        PayrollError::Unauthorized
    );
    let hired = payroll
        .add_employee(ADMIN, ALICE, String::from("Alice"), 90_000, String::from("Engineer"))
        .unwrap();
    assert!(hired.active);
    assert_eq!(
        payroll
            .add_employee(ADMIN, ALICE, String::from("Alice Twice"), 1, String::from("Clone"))
            .unwrap_err(),
        PayrollError::DuplicateEntry
    );
    let benched = payroll.update_employee_status(ADMIN, ALICE, false).unwrap();
    assert!(!benched.active);
    assert_eq!(benched.salary, 90_000);
    assert_eq!(
        payroll.update_employee_status(ADMIN, BOB, true).unwrap_err(),
        PayrollError::EmployeeNotFound
    );
    assert_eq!(payroll.get_employees().len(), 1);
    assert_eq!(payroll.hello(), "Hello from PayrollSystem!");
}

#[test]
fn payment_processor_records_sequenced_payments() {
    let mut processor = PaymentProcessor::initialize(ADMIN);
    assert_eq!(
        processor.process_payment(ALICE, BOB, 0, 1).unwrap_err(),
        PaymentError::InvalidAmount
    );
    let first = processor.process_payment(ALICE, BOB, 120, 1).unwrap();
    let second = processor.process_payment(BOB, ALICE, 80, 2).unwrap();
    assert_eq!(first.payment_id, 0);
    assert_eq!(second.payment_id, 1);
    assert_eq!(processor.get_payment_history(ALICE).len(), 1);
    assert_eq!(processor.get_payment_history(BOB).len(), 1);
    assert_eq!(
        processor.get_all_payments(ALICE).unwrap_err(),
        PaymentError::Unauthorized
    );
    assert_eq!(processor.get_all_payments(ADMIN).unwrap().len(), 2);
    assert_eq!(processor.hello(), "Hello from PaymentProcessor!");
}

#[test]
fn loyalty_points_issue_and_redeem() {
    let mut token = LoyaltyToken::init(ADMIN);
    assert_eq!(token.issue_points(ALICE, ALICE, 10, 1), Err(LedgerError::Unauthorized));
    assert_eq!(token.issue_points(ADMIN, ALICE, 0, 2), Err(LedgerError::InvalidAmount));
    token.issue_points(ADMIN, ALICE, 100, 3).unwrap();
    assert_eq!(token.get_balance(ALICE), 100);
    assert_eq!(token.redeem_points(ALICE, 150, 4), Err(LedgerError::InsufficientBalance));
    assert_eq!(token.redeem_points(ALICE, -1, 5), Err(LedgerError::InvalidAmount));
    token.redeem_points(ALICE, 60, 6).unwrap();
    assert_eq!(token.get_balance(ALICE), 40);
    assert_eq!(token.get_balance(BOB), 0);
    // each successful mutation left exactly one matching journal record
    let records = token.query(&RecordFilter::all()).unwrap();
    assert_eq!(records.len(), 2);
    assert_eq!(records[0].origin, None);
    assert_eq!(records[0].destination, Some(ALICE));
    assert_eq!(records[0].amount, 100);
    assert_eq!(records[1].origin, Some(ALICE));
    assert_eq!(records[1].destination, None);
    assert_eq!(records[1].amount, 60);
}

#[test]
fn loyalty_point_formula_truncates_toward_zero() {
    assert_eq!(calculate_loyalty_points(0), 0);
    assert_eq!(calculate_loyalty_points(999), 0);
    assert_eq!(calculate_loyalty_points(1_000), 1);
    assert_eq!(calculate_loyalty_points(2_500), 2);
    assert_eq!(calculate_loyalty_points(-2_500), -2);
}

#[test]
fn analytics_snapshots_are_keyed_by_date() {
    let mut analytics = Analytics::initialize(ADMIN);
    assert_eq!(
        analytics
            .generate_daily_report(ALICE, String::from("2024-01-01"))
            .unwrap_err(),
        AnalyticsError::Unauthorized
    );
    let report = analytics
        .generate_daily_report(ADMIN, String::from("2024-01-01"))
        .unwrap();
    assert_eq!(report.total_sales, 15_870_000);
    assert_eq!(report.top_products.len(), 2);
    assert_eq!(report.top_products[0].sku, "PROD_001");
    // regenerating for the same date replaces, not duplicates
    analytics.generate_daily_report(ADMIN, String::from("2024-01-01")).unwrap();
    let fetched = analytics.get_daily_report(&String::from("2024-01-01")).unwrap();
    assert_eq!(fetched.total_transactions, 47);
    assert_eq!(
        analytics.get_daily_report(&String::from("2024-01-02")).unwrap_err(),
        AnalyticsError::ReportNotFound
    );
    let financial = analytics
        .generate_financial_report(ADMIN, Period::Monthly, &String::from("a"), &String::from("b"))
        .unwrap();
    assert_eq!(financial.period, "Monthly");
    assert_eq!(financial.total_revenue, 485_000_000);
    assert_eq!(analytics.get_sales_trend(7).len(), 7);
    assert_eq!(analytics.get_top_customers(3)[0].1, 45_000_000);
    assert_eq!(analytics.get_inventory_analytics()[0].1, 156);
    assert_eq!(analytics.get_kpis()[2].1, 1247);
    assert_eq!(analytics.hello(), "Hello from Analytics System!");
}

#[test]
fn dashboard_reports_its_snapshot() {
    let dashboard = Dashboard::initialize(ADMIN);
    let metrics = dashboard.get_real_time_metrics().unwrap();
    assert_eq!(metrics.revenue_today, 15_870_000);
    assert_eq!(metrics.total_orders_today, 89);
    assert_eq!(dashboard.hello(), "Hello from Dashboard System!");
}
