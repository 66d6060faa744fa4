//! Storefront facts for one app: an optional verification record, an
//! optional pricing record and an optional free-software flag.  The caller
//! fetches them from the backend; the publish logic turns them into
//! metadata edits.

use vstd::prelude::*;

verus! {

pub struct StorefrontInfo {
    pub verification: Option<VerificationInfo>,
    pub pricing: Option<PricingInfo>,
    pub is_free_software: Option<bool>,
}

pub struct VerificationInfo {
    pub verified: bool,
    pub timestamp: Option<String>,
    pub method: Option<String>,
    pub website: Option<String>,
    pub login_provider: Option<String>,
    pub login_name: Option<String>,
    pub login_is_organization: Option<bool>,
}

/// Pricing of an app; both amounts are optional and non-negative.
pub struct PricingInfo {
    pub recommended_donation: Option<u32>,
    pub minimum_payment: Option<u32>,
}

impl Default for StorefrontInfo {
    /// The facts of an app the backend knows nothing about.
    fn default() -> (r: Self)
        ensures
            r.verification is None,
            r.pricing is None,
            r.is_free_software is None,
    {
        StorefrontInfo { verification: None, pricing: None, is_free_software: None }
    }
}

impl Default for VerificationInfo {
    fn default() -> (r: Self)
        ensures
            !r.verified,
            r.timestamp is None,
            r.method is None,
            r.website is None,
            r.login_provider is None,
            r.login_name is None,
            r.login_is_organization is None,
    {
        VerificationInfo {
            verified: false,
            timestamp: None,
            method: None,
            website: None,
            login_provider: None,
            login_name: None,
            login_is_organization: None,
        }
    }
}

/// The app carries a verification record that marks it verified.
pub open spec fn spec_is_verified(info: StorefrontInfo) -> bool {
    info.verification matches Some(v) && v.verified
}

/// The app is known to be free software.
pub open spec fn spec_is_floss(info: StorefrontInfo) -> bool {
    info.is_free_software == Some(true)
}

/// The app asks for payment: a pricing record is present and the
/// recommended donation or the minimum payment is strictly positive.
pub open spec fn spec_is_paid(info: StorefrontInfo) -> bool {
    &&& info.pricing matches Some(p)
    &&& {
        ||| p.recommended_donation matches Some(x) && x > 0
        ||| p.minimum_payment matches Some(y) && y > 0
    }
}

} // verus!
