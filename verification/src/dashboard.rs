//! The dashboard: a fixed snapshot of real-time store metrics.

use vstd::prelude::*;
use crate::AccountId;
use crate::errors::LedgerError;

verus! {

/// The metrics shown on the store dashboard.
#[derive(Clone, Copy, Debug, PartialEq, Eq, Structural)]
pub struct RealTimeMetrics {
    pub total_sales_today: i128,
    pub total_customers_today: u32,
    pub total_orders_today: u32,
    pub revenue_today: i128,
    pub average_order_value: i128,
    pub low_stock_alerts: u32,
    pub pending_orders: u32,
    pub online_visitors: u32,
}

/// The dashboard instance.
pub struct Dashboard {
    admin: AccountId,
}

impl Dashboard {
    /// The configured administrator identity.
    pub closed spec fn spec_admin(&self) -> AccountId {
        self.admin
    }

    /// A fresh dashboard.
    pub fn initialize(admin: AccountId) -> (dashboard: Self)
        ensures
            dashboard.spec_admin() == admin,
    {
        Dashboard { admin }
    }

    /// The metrics snapshot this dashboard reports.
    pub fn get_real_time_metrics(&self) -> (outcome: Result<RealTimeMetrics, LedgerError>)
        ensures
            outcome == Ok::<RealTimeMetrics, LedgerError>(
                RealTimeMetrics {
                    total_sales_today: 47,
                    total_customers_today: 124,
                    total_orders_today: 89,
                    revenue_today: 15_870_000,
                    average_order_value: 337_659,
                    low_stock_alerts: 12,
                    pending_orders: 8,
                    online_visitors: 23,
                },
            ),
    {
        Ok(
            RealTimeMetrics {
                total_sales_today: 47,
                total_customers_today: 124,
                total_orders_today: 89,
                revenue_today: 15_870_000,
                average_order_value: 337_659,
                low_stock_alerts: 12,
                pending_orders: 8,
                online_visitors: 23,
            },
        )
    }

    /// The greeting of this system.
    pub fn hello(&self) -> (greeting: String)
        ensures
            greeting@ == "Hello from Dashboard System!"@,
    {
        String::from_str("Hello from Dashboard System!")
    }
}

} // verus!
