//! The billing provider's catalog resources and their normalization for the
//! gateway's own responses.
//!
//! A nested resource reference may arrive from the provider either as a bare
//! id or as a fully materialized object (when an "expand" was honored): the
//! two-variant reference types keep the invariant that exactly one shape is
//! populated, and a single accessor collapses both to the id.

use vstd::prelude::*;

verus! {

/// The provider's list envelope: `{"data": [...]}`.
pub struct StripeList<T> {
    pub data: Vec<T>,
}

/// A reference to a price: either the bare price id, or the expanded price.
pub enum StripePriceOrId {
    Expanded(Box<StripePrice>),
    Id(String),
}

/// A catalog product as the provider returns it.
pub struct StripeProduct {
    pub id: String,
    pub name: String,
    pub description: Option<String>,
    pub default_price: Option<StripePriceOrId>,
}

/// A reference to a product: either the bare product id, or the expanded
/// product.
pub enum StripeProductOrId {
    Expanded(Box<StripeProduct>),
    Id(String),
}

/// A recurrence descriptor of a price.
pub struct StripeRecurring {
    pub interval: Option<String>,
    pub trial_period_days: Option<i64>,
}

/// A catalog price as the provider returns it.
pub struct StripePrice {
    pub id: String,
    pub product: Option<StripeProductOrId>,
    pub unit_amount: Option<i64>,
    pub currency: Option<String>,
    pub recurring: Option<StripeRecurring>,
}

/// A checkout session as the provider returns it.
pub struct StripeCheckoutSession {
    pub id: String,
    pub url: Option<String>,
    pub customer: Option<String>,
    pub subscription: Option<String>,
    pub client_reference_id: Option<String>,
}

impl StripePriceOrId {
    /// The id this reference denotes, whichever shape it arrived in.
    pub open spec fn spec_ref_id(&self) -> Seq<char> {
        match self {
            StripePriceOrId::Expanded(p) => p.id@,
            StripePriceOrId::Id(s) => s@,
        }
    }

    /// The referenced price's id, extracted from either shape.
    pub fn ref_id(&self) -> (r: &String)
        ensures
            r@ == self.spec_ref_id(),
    {
        match self {
            StripePriceOrId::Expanded(p) => &p.id,
            StripePriceOrId::Id(s) => s,
        }
    }
}

impl StripeProductOrId {
    /// The id this reference denotes, whichever shape it arrived in.
    pub open spec fn spec_ref_id(&self) -> Seq<char> {
        match self {
            StripeProductOrId::Expanded(p) => p.id@,
            StripeProductOrId::Id(s) => s@,
        }
    }

    /// The referenced product's id, extracted from either shape.
    pub fn ref_id(&self) -> (r: &String)
        ensures
            r@ == self.spec_ref_id(),
    {
        match self {
            StripeProductOrId::Expanded(p) => &p.id,
            StripeProductOrId::Id(s) => s,
        }
    }
}

/// Law: the two shapes of an expandable price reference — the expanded
/// resource and the bare id — yield the same extracted id whenever the
/// expanded resource carries that id.
pub proof fn lemma_price_reference_shapes_agree(expanded: StripePriceOrId, bare: StripePriceOrId)
    requires
        expanded matches StripePriceOrId::Expanded(p) && bare matches StripePriceOrId::Id(s)
            && p.id@ == s@,
    ensures
        expanded.spec_ref_id() == bare.spec_ref_id(),
{
}

/// Law: the two shapes of an expandable product reference yield the same
/// extracted id whenever the expanded resource carries that id.
pub proof fn lemma_product_reference_shapes_agree(
    expanded: StripeProductOrId,
    bare: StripeProductOrId,
)
    requires
        expanded matches StripeProductOrId::Expanded(p) && bare matches StripeProductOrId::Id(s)
            && p.id@ == s@,
    ensures
        expanded.spec_ref_id() == bare.spec_ref_id(),
{
}

/// A product row of the gateway's catalog listing.
pub struct ProductSummary {
    pub id: String,
    pub name: String,
    pub description: Option<String>,
    pub default_price_id: Option<String>,
}

/// A price row of the gateway's catalog listing, with the listing's
/// defaults applied: a missing amount is 0, a missing currency is `usd`, a
/// missing recurrence stays absent.
pub struct PriceSummary {
    pub id: String,
    pub product_id: String,
    pub unit_amount: i64,
    pub currency: String,
    pub interval: Option<String>,
    pub trial_period_days: Option<i64>,
}

/// The view of an optional string, for contracts over optional fields.
pub open spec fn opt_view(o: Option<String>) -> Option<Seq<char>> {
    match o {
        Some(s) => Some(s@),
        None => None,
    }
}

/// What a product summary must hold of its source product: ids, name and
/// description unchanged, and the default price collapsed to its id in
/// either shape, absent when the product has none.
pub open spec fn product_summary_matches(p: StripeProduct, s: ProductSummary) -> bool {
    &&& s.id@ == p.id@
    &&& s.name@ == p.name@
    &&& opt_view(s.description) == opt_view(p.description)
    &&& opt_view(s.default_price_id) == (match p.default_price {
        Some(r) => Some(r.spec_ref_id()),
        None => None::<Seq<char>>,
    })
}

/// What a price summary must hold of its source price: the product reference
/// collapsed to its id (empty when absent), amount defaulted to 0, currency
/// defaulted to `usd`, recurrence fields surfaced as they are.
pub open spec fn price_summary_matches(p: StripePrice, s: PriceSummary) -> bool {
    &&& s.id@ == p.id@
    &&& s.product_id@ == (match p.product {
        Some(r) => r.spec_ref_id(),
        None => Seq::<char>::empty(),
    })
    &&& s.unit_amount == (match p.unit_amount {
        Some(a) => a,
        None => 0,
    })
    &&& s.currency@ == (match p.currency {
        Some(c) => c@,
        None => ("usd")@,
    })
    &&& opt_view(s.interval) == (match p.recurring {
        Some(r) => opt_view(r.interval),
        None => None::<Seq<char>>,
    })
    &&& s.trial_period_days == (match p.recurring {
        Some(r) => r.trial_period_days,
        None => None::<i64>,
    })
}

fn clone_opt_string(o: &Option<String>) -> (r: Option<String>)
    ensures
        opt_view(r) == opt_view(*o),
{
    match o {
        Some(s) => Some(s.clone()),
        None => None,
    }
}

/// Normalize one product for the catalog listing.
pub fn product_summary(p: &StripeProduct) -> (s: ProductSummary)
    ensures
        product_summary_matches(*p, s),
{
    let default_price_id = match &p.default_price {
        Some(r) => Some(r.ref_id().clone()),
        None => None,
    };
    ProductSummary {
        id: p.id.clone(),
        name: p.name.clone(),
        description: clone_opt_string(&p.description),
        default_price_id,
    }
}

/// Normalize one price for the catalog listing, applying the defaults.
pub fn price_summary(p: &StripePrice) -> (s: PriceSummary)
    ensures
        price_summary_matches(*p, s),
{
    let product_id = match &p.product {
        Some(r) => r.ref_id().clone(),
        None => String::new(),
    };
    let unit_amount = match &p.unit_amount {
        Some(a) => *a,
        None => 0,
    };
    let currency = match &p.currency {
        Some(c) => c.clone(),
        None => String::from_str("usd"),
    };
    let (interval, trial_period_days) = match &p.recurring {
        Some(r) => (clone_opt_string(&r.interval), r.trial_period_days),
        None => (None, None),
    };
    PriceSummary { id: p.id.clone(), product_id, unit_amount, currency, interval, trial_period_days }
}

/// Normalize a product listing, row by row and in order.
pub fn summarize_products(list: &StripeList<StripeProduct>) -> (out: Vec<ProductSummary>)
    ensures
        out@.len() == list.data@.len(),
        forall|i: int|
            0 <= i < out@.len() ==> product_summary_matches(list.data@[i], #[trigger] out@[i]),
{
    let mut out: Vec<ProductSummary> = Vec::new();
    let mut i: usize = 0;
    while i < list.data.len()
        invariant
            i <= list.data@.len(),
            out@.len() == i,
            forall|k: int|
                0 <= k < i ==> product_summary_matches(list.data@[k], #[trigger] out@[k]),
        decreases list.data@.len() - i,
    {
        out.push(product_summary(&list.data[i]));
        i = i + 1;
    }
    out
}

/// Normalize a price listing, row by row and in order.
pub fn summarize_prices(list: &StripeList<StripePrice>) -> (out: Vec<PriceSummary>)
    ensures
        out@.len() == list.data@.len(),
        forall|i: int|
            0 <= i < out@.len() ==> price_summary_matches(list.data@[i], #[trigger] out@[i]),
{
    let mut out: Vec<PriceSummary> = Vec::new();
    let mut i: usize = 0;
    while i < list.data.len()
        invariant
            i <= list.data@.len(),
            out@.len() == i,
            forall|k: int| 0 <= k < i ==> price_summary_matches(list.data@[k], #[trigger] out@[k]),
        decreases list.data@.len() - i,
    {
        out.push(price_summary(&list.data[i]));
        i = i + 1;
    }
    out
}

} // verus!
