//! The analytics system: report snapshots keyed by date, with fixed
//! figures where no live feed is wired in.
//!
//! Reports are value objects: regenerating one for the same date replaces
//! the stored snapshot, and reading never mutates anything.

use vstd::prelude::*;
use crate::AccountId;

verus! {

/// Why an analytics operation was refused.
#[derive(Clone, Copy, Debug, PartialEq, Eq, Structural)]
pub enum AnalyticsError {
    /// The principal is not the configured administrator.
    Unauthorized,
    /// No report is stored for the given date.
    ReportNotFound,
}

/// The reporting periods.
#[derive(Clone, Copy, Debug, PartialEq, Eq, Structural)]
pub enum Period {
    Daily,
    Weekly,
    Monthly,
    Quarterly,
    Yearly,
}

/// The label of a reporting period.
pub open spec fn spec_period_label(period: Period) -> Seq<char> {
    match period {
        Period::Daily => "Daily"@,
        Period::Weekly => "Weekly"@,
        Period::Monthly => "Monthly"@,
        Period::Quarterly => "Quarterly"@,
        Period::Yearly => "Yearly"@,
    }
}

/// Sales figures for one product.
#[derive(Debug)]
pub struct ProductSales {
    pub sku: String,
    pub name: String,
    pub quantity_sold: u32,
    pub revenue: i128,
}

impl Clone for ProductSales {
    fn clone(&self) -> (other: Self)
        ensures
            other == *self,
    {
        ProductSales {
            sku: self.sku.clone(),
            name: self.name.clone(),
            quantity_sold: self.quantity_sold,
            revenue: self.revenue,
        }
    }
}

/// One day's report snapshot.
#[derive(Debug)]
pub struct DailyReport {
    pub date: String,
    pub total_sales: i128,
    pub total_transactions: u32,
    pub average_transaction: i128,
    pub cash_sales: i128,
    pub card_sales: i128,
    pub crypto_sales: i128,
    pub top_products: Vec<ProductSales>,
    pub new_customers: u32,
    pub inventory_turnover: i128,
}

/// Whether two daily reports agree on every field (top products compared
/// as sequences).
pub open spec fn spec_daily_report_eq(a: DailyReport, b: DailyReport) -> bool {
    &&& a.date == b.date
    &&& a.total_sales == b.total_sales
    &&& a.total_transactions == b.total_transactions
    &&& a.average_transaction == b.average_transaction
    &&& a.cash_sales == b.cash_sales
    &&& a.card_sales == b.card_sales
    &&& a.crypto_sales == b.crypto_sales
    &&& a.top_products@ == b.top_products@
    &&& a.new_customers == b.new_customers
    &&& a.inventory_turnover == b.inventory_turnover
}

impl Clone for DailyReport {
    fn clone(&self) -> (other: Self)
        ensures
            spec_daily_report_eq(other, *self),
    {
        let top_products = self.top_products.clone();
        proof {
            assert(top_products@ =~= self.top_products@);
        }
        DailyReport {
            date: self.date.clone(),
            total_sales: self.total_sales,
            total_transactions: self.total_transactions,
            average_transaction: self.average_transaction,
            cash_sales: self.cash_sales,
            card_sales: self.card_sales,
            crypto_sales: self.crypto_sales,
            top_products,
            new_customers: self.new_customers,
            inventory_turnover: self.inventory_turnover,
        }
    }
}

/// The figures the daily snapshot reports for a date.
pub open spec fn spec_daily_report_for(report: DailyReport, date: Seq<char>) -> bool {
    &&& report.date@ == date
    &&& report.total_sales == 15_870_000
    &&& report.total_transactions == 47
    &&& report.average_transaction == 337_659
    &&& report.cash_sales == 8_450_000
    &&& report.card_sales == 5_120_000
    &&& report.crypto_sales == 2_300_000
    &&& report.top_products@.len() == 2
    &&& report.top_products@[0].sku@ == "PROD_001"@
    &&& report.top_products@[0].name@ == "iPhone 15 Pro"@
    &&& report.top_products@[0].quantity_sold == 3
    &&& report.top_products@[0].revenue == 45_000_000
    &&& report.top_products@[1].sku@ == "PROD_002"@
    &&& report.top_products@[1].name@ == "Samsung Galaxy S24"@
    &&& report.top_products@[1].quantity_sold == 2
    &&& report.top_products@[1].revenue == 28_000_000
    &&& report.new_customers == 12
    &&& report.inventory_turnover == 240
}

/// A financial report over a period.
#[derive(Debug)]
pub struct FinancialReport {
    pub period: String,
    pub total_revenue: i128,
    pub total_expenses: i128,
    pub net_profit: i128,
    pub gross_margin: i128,
    pub best_performing_products: Vec<ProductSales>,
    pub customer_acquisition_cost: i128,
    pub customer_lifetime_value: i128,
}

/// The index of the first report with the given date, or -1 when no
/// report has it.
pub open spec fn spec_report_index(reports: Seq<DailyReport>, date: Seq<char>) -> int
    decreases reports.len(),
{
    if reports.len() == 0 {
        -1
    } else if reports.first().date@ == date {
        0
    } else {
        let rest = spec_report_index(reports.drop_first(), date);
        if rest == -1 {
            -1
        } else {
            rest + 1
        }
    }
}

/// What the first-match index means.
pub proof fn lemma_report_index(reports: Seq<DailyReport>, date: Seq<char>)
    ensures
        spec_report_index(reports, date) == -1 <==> (forall|i: int|
            0 <= i < reports.len() ==> (#[trigger] reports[i]).date@ != date),
        spec_report_index(reports, date) != -1 ==> {
            let at = spec_report_index(reports, date);
            &&& 0 <= at < reports.len()
            &&& reports[at].date@ == date
            &&& (forall|j: int| 0 <= j < at ==> (#[trigger] reports[j]).date@ != date)
        },
    decreases reports.len(),
{
    if reports.len() > 0 {
        lemma_report_index(reports.drop_first(), date);
        let rest = spec_report_index(reports.drop_first(), date);
        if reports.first().date@ == date {
        } else if rest == -1 {
            assert forall|i: int|
                0 <= i < reports.len() implies (#[trigger] reports[i]).date@ != date by {
                if i > 0 {
                    assert(reports.drop_first()[i - 1] == reports[i]);
                }
            }
        } else {
            assert(reports.drop_first()[rest] == reports[rest + 1]);
            assert forall|j: int|
                0 <= j < rest + 1 implies (#[trigger] reports[j]).date@ != date by {
                if j > 0 {
                    assert(reports.drop_first()[j - 1] == reports[j]);
                }
            }
        }
    }
}

/// The first-match index is `i` when the prefix before `i` is free of the
/// date and the report at `i` has it.
pub proof fn lemma_report_index_at(reports: Seq<DailyReport>, i: int, date: Seq<char>)
    requires
        0 <= i < reports.len(),
        reports[i].date@ == date,
        forall|j: int| 0 <= j < i ==> (#[trigger] reports[j]).date@ != date,
    ensures
        spec_report_index(reports, date) == i,
    decreases i,
{
    if i > 0 {
        assert(reports.first().date@ != date);
        assert(reports.drop_first()[i - 1] == reports[i]);
        assert forall|j: int|
            0 <= j < i - 1 implies (#[trigger] reports.drop_first()[j]).date@ != date by {
            assert(reports.drop_first()[j] == reports[j + 1]);
        }
        lemma_report_index_at(reports.drop_first(), i - 1, date);
    }
}

/// The analytics instance: the configured administrator and the stored
/// daily snapshots keyed by date.
pub struct Analytics {
    admin: AccountId,
    daily_reports: Vec<DailyReport>,
}

impl Analytics {
    /// The configured administrator identity.
    pub closed spec fn spec_admin(&self) -> AccountId {
        self.admin
    }

    /// The stored daily snapshots.
    pub closed spec fn daily_reports(&self) -> Seq<DailyReport> {
        self.daily_reports@
    }

    /// Dates are unique among stored snapshots.
    pub closed spec fn wf(&self) -> bool {
        forall|i: int, j: int|
            0 <= i < j < self.daily_reports@.len() ==> (#[trigger] self.daily_reports@[i]).date@
                != (#[trigger] self.daily_reports@[j]).date@
    }

    /// A fresh analytics system with no stored snapshots.
    pub fn initialize(admin: AccountId) -> (system: Self)
        ensures
            system.wf(),
            system.spec_admin() == admin,
            system.daily_reports() == Seq::<DailyReport>::empty(),
    {
        Analytics { admin, daily_reports: Vec::new() }
    }

    /// Generates the daily snapshot for a date and stores it, replacing
    /// any snapshot already stored for that date. Admin-gated.
    #[verifier::loop_isolation(false)]
    pub fn generate_daily_report(&mut self, admin: AccountId, date: String) -> (outcome: Result<
        DailyReport,
        AnalyticsError,
    >)
        requires
            old(self).wf(),
        ensures
            final(self).wf(),
            final(self).spec_admin() == old(self).spec_admin(),
            admin != old(self).spec_admin() ==> outcome == Err::<DailyReport, AnalyticsError>(
                AnalyticsError::Unauthorized,
            ) && *final(self) == *old(self),
            admin == old(self).spec_admin() ==> (outcome matches Ok(report) && {
                &&& spec_daily_report_for(report, date@)
                &&& spec_report_index(final(self).daily_reports(), date@) != -1
                &&& spec_daily_report_eq(
                    final(self).daily_reports()[spec_report_index(
                        final(self).daily_reports(),
                        date@,
                    )],
                    report,
                )
                &&& (spec_report_index(old(self).daily_reports(), date@) == -1
                    ==> final(self).daily_reports().len() == old(self).daily_reports().len() + 1
                    && final(self).daily_reports().take(old(self).daily_reports().len() as int)
                    == old(self).daily_reports())
                &&& (spec_report_index(old(self).daily_reports(), date@) != -1
                    ==> final(self).daily_reports().len() == old(self).daily_reports().len()
                    && (forall|j: int|
                    0 <= j < old(self).daily_reports().len() && j != spec_report_index(
                        old(self).daily_reports(),
                        date@,
                    ) ==> #[trigger] final(self).daily_reports()[j] == old(
                        self,
                    ).daily_reports()[j]))
            }),
    {
        if admin != self.admin {
            return Err(AnalyticsError::Unauthorized);
        }
        let mut top_products: Vec<ProductSales> = Vec::new();
        top_products.push(
            ProductSales {
                sku: String::from_str("PROD_001"),
                name: String::from_str("iPhone 15 Pro"),
                quantity_sold: 3,
                revenue: 45_000_000,
            },
        );
        top_products.push(
            ProductSales {
                sku: String::from_str("PROD_002"),
                name: String::from_str("Samsung Galaxy S24"),
                quantity_sold: 2,
                revenue: 28_000_000,
            },
        );
        let report = DailyReport {
            date,
            total_sales: 15_870_000,
            total_transactions: 47,
            average_transaction: 337_659,
            cash_sales: 8_450_000,
            card_sales: 5_120_000,
            crypto_sales: 2_300_000,
            top_products,
            new_customers: 12,
            inventory_turnover: 240,
        };
        let stored = report.clone();
        proof {
            lemma_report_index(self.daily_reports@, stored.date@);
        }
        let n = self.daily_reports.len();
        let mut i: usize = 0;
        while i < n
            invariant
                i <= n,
                n == self.daily_reports@.len(),
                forall|j: int|
                    0 <= j < i ==> (#[trigger] self.daily_reports@[j]).date@ != stored.date@,
                *self == *old(self),
                spec_daily_report_eq(stored, report),
                stored.date@ == report.date@,
            decreases n - i,
        {
            if self.daily_reports[i].date.eq(&stored.date) {
                proof {
                    lemma_report_index_at(self.daily_reports@, i as int, stored.date@);
                    let changed = self.daily_reports@.update(i as int, stored);
                    assert forall|a: int, b: int|
                        0 <= a < b < changed.len() implies (#[trigger] changed[a]).date@ != (
                    #[trigger] changed[b]).date@ by {
                        assert(self.daily_reports@[a].date@ != self.daily_reports@[b].date@);
                    }
                }
                self.daily_reports.set(i, stored);
                proof {
                    lemma_report_index_at(self.daily_reports@, i as int, report.date@);
                }
                return Ok(report);
            }
            i += 1;
        }
        proof {
            let p = self.daily_reports@.push(stored);
            assert forall|a: int, b: int|
                0 <= a < b < p.len() implies (#[trigger] p[a]).date@ != (#[trigger] p[b]).date@ by {
                if b < self.daily_reports@.len() {
                    assert(p[a] == self.daily_reports@[a]);
                    assert(p[b] == self.daily_reports@[b]);
                } else {
                    assert(p[a] == self.daily_reports@[a]);
                    assert(p[b] == stored);
                }
            }
            assert(p.take(self.daily_reports@.len() as int) =~= self.daily_reports@);
        }
        let at = self.daily_reports.len();
        self.daily_reports.push(stored);
        proof {
            lemma_report_index_at(self.daily_reports@, at as int, report.date@);
        }
        Ok(report)
    }

    /// Reads the stored snapshot for a date.
    #[verifier::loop_isolation(false)]
    pub fn get_daily_report(&self, date: &String) -> (outcome: Result<DailyReport, AnalyticsError>)
        ensures
            spec_report_index(self.daily_reports(), date@) == -1 ==> outcome == Err::<
                DailyReport,
                AnalyticsError,
            >(AnalyticsError::ReportNotFound),
            spec_report_index(self.daily_reports(), date@) != -1 ==> (outcome matches Ok(report)
                && spec_daily_report_eq(
                report,
                self.daily_reports()[spec_report_index(self.daily_reports(), date@)],
            )),
    {
        proof {
            lemma_report_index(self.daily_reports@, date@);
        }
        let n = self.daily_reports.len();
        let mut i: usize = 0;
        while i < n
            invariant
                i <= n,
                n == self.daily_reports@.len(),
                forall|j: int| 0 <= j < i ==> (#[trigger] self.daily_reports@[j]).date@ != date@,
            decreases n - i,
        {
            if self.daily_reports[i].date.eq(date) {
                proof {
                    lemma_report_index_at(self.daily_reports@, i as int, date@);
                }
                return Ok(self.daily_reports[i].clone());
            }
            i += 1;
        }
        Err(AnalyticsError::ReportNotFound)
    }

    /// Generates the financial report for a period. Admin-gated; the
    /// figures are this system's fixed snapshot, labelled with the
    /// period's name.
    pub fn generate_financial_report(
        &self,
        admin: AccountId,
        period: Period,
        start_date: &String,
        end_date: &String,
    ) -> (outcome: Result<FinancialReport, AnalyticsError>)
        ensures
            admin != self.spec_admin() ==> outcome == Err::<FinancialReport, AnalyticsError>(
                AnalyticsError::Unauthorized,
            ),
            admin == self.spec_admin() ==> (outcome matches Ok(report) && {
                &&& report.period@ == spec_period_label(period)
                &&& report.total_revenue == 485_000_000
                &&& report.total_expenses == 320_000_000
                &&& report.net_profit == 165_000_000
                &&& report.gross_margin == 3402
                &&& report.best_performing_products@.len() == 2
                &&& report.best_performing_products@[0].sku@ == "PROD_001"@
                &&& report.best_performing_products@[0].name@ == "iPhone 15 Pro"@
                &&& report.best_performing_products@[0].quantity_sold == 25
                &&& report.best_performing_products@[0].revenue == 375_000_000
                &&& report.best_performing_products@[1].sku@ == "PROD_003"@
                &&& report.best_performing_products@[1].name@ == "MacBook Air M2"@
                &&& report.best_performing_products@[1].quantity_sold == 8
                &&& report.best_performing_products@[1].revenue == 192_000_000
                &&& report.customer_acquisition_cost == 850_000
                &&& report.customer_lifetime_value == 4_500_000
            }),
    {
        if admin != self.admin {
            return Err(AnalyticsError::Unauthorized);
        }
        let period_label = match period {
            Period::Daily => String::from_str("Daily"),
            Period::Weekly => String::from_str("Weekly"),
            Period::Monthly => String::from_str("Monthly"),
            Period::Quarterly => String::from_str("Quarterly"),
            Period::Yearly => String::from_str("Yearly"),
        };
        let mut best_performing_products: Vec<ProductSales> = Vec::new();
        best_performing_products.push(
            ProductSales {
                sku: String::from_str("PROD_001"),
                name: String::from_str("iPhone 15 Pro"),
                quantity_sold: 25,
                revenue: 375_000_000,
            },
        );
        best_performing_products.push(
            ProductSales {
                sku: String::from_str("PROD_003"),
                name: String::from_str("MacBook Air M2"),
                quantity_sold: 8,
                revenue: 192_000_000,
            },
        );
        Ok(
            FinancialReport {
                period: period_label,
                total_revenue: 485_000_000,
                total_expenses: 320_000_000,
                net_profit: 165_000_000,
                gross_margin: 3402,
                best_performing_products,
                customer_acquisition_cost: 850_000,
                customer_lifetime_value: 4_500_000,
            },
        )
    }

    /// The sales trend this system reports: one figure per day of the
    /// trailing week.
    pub fn get_sales_trend(&self, days: u32) -> (trend: Vec<i128>)
        ensures
            trend@.len() == 7,
            trend@[0] == 12_500_000,
            trend@[1] == 15_870_000,
            trend@[2] == 18_240_000,
            trend@[3] == 14_560_000,
            trend@[4] == 16_980_000,
            trend@[5] == 20_150_000,
            trend@[6] == 22_430_000,
    {
        let mut trend: Vec<i128> = Vec::new();
        trend.push(12_500_000);
        trend.push(15_870_000);
        trend.push(18_240_000);
        trend.push(14_560_000);
        trend.push(16_980_000);
        trend.push(20_150_000);
        trend.push(22_430_000);
        trend
    }

    /// The top customers this system reports, as account and cumulative
    /// spend pairs.
    pub fn get_top_customers(&self, limit: u32) -> (top: Vec<(AccountId, i128)>)
        ensures
            top@.len() == 3,
            top@[0] == (9001u64, 45_000_000i128),
            top@[1] == (9002u64, 38_500_000i128),
            top@[2] == (9003u64, 32_000_000i128),
    {
        let mut top: Vec<(AccountId, i128)> = Vec::new();
        top.push((9001, 45_000_000));
        top.push((9002, 38_500_000));
        top.push((9003, 32_000_000));
        top
    }

    /// The inventory health figures this system reports.
    pub fn get_inventory_analytics(&self) -> (figures: Vec<(String, u32)>)
        ensures
            figures@.len() == 4,
            figures@[0].0@ == "total_products"@ && figures@[0].1 == 156,
            figures@[1].0@ == "low_stock_items"@ && figures@[1].1 == 12,
            figures@[2].0@ == "out_of_stock_items"@ && figures@[2].1 == 3,
            figures@[3].0@ == "slow_moving_items"@ && figures@[3].1 == 23,
    {
        let mut figures: Vec<(String, u32)> = Vec::new();
        figures.push((String::from_str("total_products"), 156));
        figures.push((String::from_str("low_stock_items"), 12));
        figures.push((String::from_str("out_of_stock_items"), 3));
        figures.push((String::from_str("slow_moving_items"), 23));
        figures
    }

    /// The key performance indicators this system reports.
    pub fn get_kpis(&self) -> (kpis: Vec<(String, i128)>)
        ensures
            kpis@.len() == 5,
            kpis@[0].0@ == "daily_revenue"@ && kpis@[0].1 == 15_870_000,
            kpis@[1].0@ == "monthly_revenue"@ && kpis@[1].1 == 485_000_000,
            kpis@[2].0@ == "customer_count"@ && kpis@[2].1 == 1247,
            kpis@[3].0@ == "average_order_value"@ && kpis@[3].1 == 337_659,
            kpis@[4].0@ == "conversion_rate"@ && kpis@[4].1 == 68,
    {
        let mut kpis: Vec<(String, i128)> = Vec::new();
        kpis.push((String::from_str("daily_revenue"), 15_870_000));
        kpis.push((String::from_str("monthly_revenue"), 485_000_000));
        kpis.push((String::from_str("customer_count"), 1247));
        kpis.push((String::from_str("average_order_value"), 337_659));
        kpis.push((String::from_str("conversion_rate"), 68));
        kpis
    }

    /// The greeting of this system.
    pub fn hello(&self) -> (greeting: String)
        ensures
            greeting@ == "Hello from Analytics System!"@,
    {
        String::from_str("Hello from Analytics System!")
    }
}

} // verus!
