use vstd::prelude::*;

verus! {

/// The payment provider's customer record of a user.
pub struct Model {
    pub id: String,
    pub user_id: String,
    pub stripe_customer_id: String,
    /// Seconds since the epoch.
    pub created_at: i64,
    /// Seconds since the epoch.
    pub updated_at: i64,
}

} // verus!
