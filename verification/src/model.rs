//! The records of the remote platform, their conversion to products, and the
//! request that creates or updates a remote record.

use crate::number::{decimal_of, u64_to_decimal};
use crate::product::{clone_text, text_of, Product, ProductView};
use vstd::prelude::*;

verus! {

/// The price of a remote record, with the features that are switched on
/// for it.
#[derive(Debug)]
pub struct PriceInformation {
    pub default_price_in_robux: u64,
    pub enabled_features: Option<Vec<String>>,
}

/// A one-time product as the platform lists it.
#[derive(Debug)]
pub struct DevProduct {
    pub product_id: u64,
    pub name: String,
    pub description: String,
    pub universe_id: u64,
    pub is_for_sale: bool,
    pub store_page_enabled: bool,
    pub price_information: Option<PriceInformation>,
    pub is_immutable: bool,
    pub created_timestamp: String,
    pub updated_timestamp: String,
}

/// A pass as the platform lists it.
#[derive(Debug)]
pub struct GamePass {
    pub game_pass_id: u64,
    pub name: String,
    pub description: String,
    pub is_for_sale: bool,
    pub icon_asset_id: u64,
    pub created_timestamp: String,
    pub updated_timestamp: String,
    pub price_information: Option<PriceInformation>,
}

/// What is sent to create or update a remote record.
#[derive(Debug, PartialEq, Eq)]
pub struct ProductUpdateRequest {
    pub name: String,
    pub description: Option<String>,
    pub is_for_sale: Option<bool>,
    pub price: Option<u64>,
    pub is_regional_pricing_enabled: Option<bool>,
    pub store_page_enabled: Option<bool>,
}

/// The mathematical value of a [`PriceInformation`].
pub struct PriceView {
    pub default_price: u64,
    pub features: Option<Seq<Seq<char>>>,
}

impl View for PriceInformation {
    type V = PriceView;

    open spec fn view(&self) -> PriceView {
        PriceView {
            default_price: self.default_price_in_robux,
            features: match self.enabled_features {
                Some(list) => Some(list@.map_values(|f: String| f@)),
                None => None,
            },
        }
    }
}

/// The value of an optional price.
pub open spec fn price_of(info: Option<PriceInformation>) -> Option<PriceView> {
    match info {
        Some(info) => Some(info@),
        None => None,
    }
}

/// Whether the price, if there is one, can be held by a product.
pub open spec fn price_fits(info: Option<PriceView>) -> bool {
    info matches Some(p) ==> p.default_price <= i64::MAX
}

/// The mathematical value of a [`ProductUpdateRequest`].
pub struct ProductUpdateRequestView {
    pub name: Seq<char>,
    pub description: Option<Seq<char>>,
    pub is_for_sale: Option<bool>,
    pub price: Option<u64>,
    pub is_regional_pricing_enabled: Option<bool>,
    pub store_page_enabled: Option<bool>,
}

impl View for ProductUpdateRequest {
    type V = ProductUpdateRequestView;

    open spec fn view(&self) -> ProductUpdateRequestView {
        ProductUpdateRequestView {
            name: self.name@,
            description: text_of(self.description),
            is_for_sale: self.is_for_sale,
            price: self.price,
            is_regional_pricing_enabled: self.is_regional_pricing_enabled,
            store_page_enabled: self.store_page_enabled,
        }
    }
}

/// The product that a remote record stands for. It has no discount and no
/// prefix; its price is the default price, or zero where the record has no
/// price; regional pricing is on where the feature `RegionalPricing` is
/// listed, off where features are listed without it, and unset where no
/// features are listed.
pub open spec fn remote_product(
    id: u64,
    name: Seq<char>,
    description: Seq<char>,
    for_sale: bool,
    price: Option<PriceView>,
) -> ProductView {
    ProductView {
        id: Some(id),
        name,
        prefix: None,
        description: Some(description),
        active: for_sale,
        discount: None,
        price: match price {
            Some(p) => p.default_price as i64,
            None => 0,
        },
        regional_pricing: match price {
            Some(PriceView { features: Some(list), .. }) => Some(list.contains("RegionalPricing"@)),
            _ => None,
        },
    }
}

/// The request that uploads a product: its title, description and flags as
/// they stand, and its discounted price.
pub open spec fn request_of(p: ProductView) -> ProductUpdateRequestView {
    ProductUpdateRequestView {
        name: p.title(),
        description: p.description,
        is_for_sale: Some(p.active),
        price: Some(p.effective_price() as u64),
        is_regional_pricing_enabled: p.regional_pricing,
        store_page_enabled: None,
    }
}

impl PriceInformation {
    /// Whether the feature `RegionalPricing` is listed; nothing where no
    /// features are listed.
    pub fn regional_pricing(&self) -> (out: Option<bool>)
        ensures
            out == match self@.features {
                Some(list) => Some(list.contains("RegionalPricing"@)),
                None => None,
            },
    {
        match &self.enabled_features {
            None => None,
            Some(list) => {
                let wanted = "RegionalPricing".to_owned();
                let ghost names = list@.map_values(|f: String| f@);
                let mut i: usize = 0;
                while i < list.len()
                    invariant
                        i <= list.len(),
                        self@.features == Some(names),
                        names == list@.map_values(|f: String| f@),
                        wanted@ == "RegionalPricing"@,
                        forall|j: int| 0 <= j < i ==> names[j] != wanted@,
                    decreases list.len() - i,
                {
                    if list[i] == wanted {
                        proof {
                            assert(names[i as int] == wanted@);
                            assert(names.contains(wanted@));
                        }
                        return Some(true);
                    }
                    i += 1;
                }
                Some(false)
            },
        }
    }
}

/// Whether the price, if there is one, can be held by a product.
pub fn price_is_in_range(info: &Option<PriceInformation>) -> (b: bool)
    ensures
        b == price_fits(price_of(*info)),
{
    match info {
        Some(p) => p.default_price_in_robux <= i64::MAX as u64,
        None => true,
    }
}

fn product_from_record(
    id: u64,
    name: &String,
    description: &String,
    for_sale: bool,
    price: &Option<PriceInformation>,
) -> (out: Product)
    requires
        price_fits(price_of(*price)),
    ensures
        out@ == remote_product(id, name@, description@, for_sale, price_of(*price)),
        out@.wf(),
{
    Product {
        id: Some(id),
        name: name.clone(),
        prefix: None,
        description: Some(description.clone()),
        active: for_sale,
        discount: None,
        price: match price {
            Some(p) => p.default_price_in_robux as i64,
            None => 0,
        },
        regional_pricing: match price {
            Some(p) => p.regional_pricing(),
            None => None,
        },
    }
}

impl GamePass {
    /// The product that this pass stands for.
    pub open spec fn product(&self) -> ProductView {
        remote_product(
            self.game_pass_id,
            self.name@,
            self.description@,
            self.is_for_sale,
            price_of(self.price_information),
        )
    }
}

impl DevProduct {
    /// The product that this one-time product stands for.
    pub open spec fn product(&self) -> ProductView {
        remote_product(
            self.product_id,
            self.name@,
            self.description@,
            self.is_for_sale,
            price_of(self.price_information),
        )
    }
}

impl Product {
    /// The product that a remote pass stands for.
    pub fn from_game_pass(gp: &GamePass) -> (out: Product)
        requires
            price_fits(price_of(gp.price_information)),
        ensures
            out@ == gp.product(),
            out@.wf(),
    {
        product_from_record(
            gp.game_pass_id,
            &gp.name,
            &gp.description,
            gp.is_for_sale,
            &gp.price_information,
        )
    }

    /// The product that a remote one-time product stands for.
    pub fn from_dev_product(dp: &DevProduct) -> (out: Product)
        requires
            price_fits(price_of(dp.price_information)),
        ensures
            out@ == dp.product(),
            out@.wf(),
    {
        product_from_record(
            dp.product_id,
            &dp.name,
            &dp.description,
            dp.is_for_sale,
            &dp.price_information,
        )
    }
}

impl ProductUpdateRequest {
    /// The request that uploads `p`.
    pub fn from_product(p: &Product) -> (out: Self)
        requires
            p@.wf(),
        ensures
            out@ == request_of(p@),
    {
        ProductUpdateRequest {
            name: p.get_title(),
            description: clone_text(&p.description),
            is_for_sale: Some(p.active),
            price: Some(p.get_price()),
            is_regional_pricing_enabled: p.regional_pricing,
            store_page_enabled: None,
        }
    }

    /// The request that uploads a remote pass as it stands.
    pub fn from_game_pass(gp: &GamePass) -> (out: Self)
        requires
            price_fits(price_of(gp.price_information)),
        ensures
            out@ == request_of(gp.product()),
    {
        let product = Product::from_game_pass(gp);
        ProductUpdateRequest::from_product(&product)
    }

    /// The request that uploads a remote one-time product as it stands.
    pub fn from_dev_product(dp: &DevProduct) -> (out: Self)
        requires
            price_fits(price_of(dp.price_information)),
        ensures
            out@ == request_of(dp.product()),
    {
        let product = Product::from_dev_product(dp);
        ProductUpdateRequest::from_product(&product)
    }
}

impl Clone for ProductUpdateRequest {
    fn clone(&self) -> (out: Self)
        ensures
            out@ == self@,
    {
        ProductUpdateRequest {
            name: self.name.clone(),
            description: clone_text(&self.description),
            is_for_sale: self.is_for_sale,
            price: self.price,
            is_regional_pricing_enabled: self.is_regional_pricing_enabled,
            store_page_enabled: self.store_page_enabled,
        }
    }
}

/// One text field of the form that carries a request.
#[derive(Debug, PartialEq, Eq)]
pub struct FormField {
    pub key: String,
    pub value: String,
}

impl View for FormField {
    type V = (Seq<char>, Seq<char>);

    open spec fn view(&self) -> (Seq<char>, Seq<char>) {
        (self.key@, self.value@)
    }
}

/// `true` or `false`.
pub open spec fn bool_text(b: bool) -> Seq<char> {
    if b {
        "true"@
    } else {
        "false"@
    }
}

/// One field where there is a value, none where there is not.
pub open spec fn optional_field(key: Seq<char>, value: Option<Seq<char>>) -> Seq<
    (Seq<char>, Seq<char>),
> {
    match value {
        Some(v) => seq![(key, v)],
        None => Seq::empty(),
    }
}

/// The fields of the form that carries a request, in order: the name; the
/// description, the sale flag, the price and the regional-pricing flag where
/// they are set. A price of zero is left out.
pub open spec fn form_fields_of(r: ProductUpdateRequestView) -> Seq<(Seq<char>, Seq<char>)> {
    seq![("name"@, r.name)] + optional_field("description"@, r.description) + optional_field(
        "isForSale"@,
        match r.is_for_sale {
            Some(b) => Some(bool_text(b)),
            None => None,
        },
    ) + optional_field(
        "price"@,
        match r.price {
            Some(p) if p > 0 => Some(decimal_of(p as nat)),
            _ => None,
        },
    ) + optional_field(
        "isRegionalPricingEnabled"@,
        match r.is_regional_pricing_enabled {
            Some(b) => Some(bool_text(b)),
            None => None,
        },
    )
}

fn bool_to_text(b: bool) -> (out: String)
    ensures
        out@ == bool_text(b),
{
    if b {
        "true".to_owned()
    } else {
        "false".to_owned()
    }
}

fn push_field(fields: &mut Vec<FormField>, key: &str, value: Option<String>)
    ensures
        final(fields)@.map_values(|f: FormField| f@) == old(fields)@.map_values(|f: FormField| f@)
            + optional_field(key@, text_of(value)),
{
    let ghost before = fields@.map_values(|f: FormField| f@);
    match value {
        Some(v) => {
            let field = FormField { key: key.to_owned(), value: v };
            fields.push(field);
            proof {
                assert(fields@.map_values(|f: FormField| f@) =~= before + seq![(key@, v@)]);
            }
        },
        None => {
            proof {
                assert(before + Seq::<(Seq<char>, Seq<char>)>::empty() =~= before);
            }
        },
    }
}

impl ProductUpdateRequest {
    /// The fields of the form that carries this request.
    pub fn form_fields(&self) -> (out: Vec<FormField>)
        ensures
            out@.map_values(|f: FormField| f@) == form_fields_of(self@),
    {
        let mut fields: Vec<FormField> = Vec::new();
        proof {
            assert(fields@.map_values(|f: FormField| f@) =~= Seq::empty());
        }
        push_field(&mut fields, "name", Some(self.name.clone()));
        proof {
            assert(fields@.map_values(|f: FormField| f@) =~= seq![("name"@, self@.name)]);
        }
        push_field(&mut fields, "description", clone_text(&self.description));
        push_field(
            &mut fields,
            "isForSale",
            match self.is_for_sale {
                Some(b) => Some(bool_to_text(b)),
                None => None,
            },
        );
        push_field(
            &mut fields,
            "price",
            match self.price {
                Some(p) if p > 0 => Some(u64_to_decimal(p)),
                _ => None,
            },
        );
        push_field(
            &mut fields,
            "isRegionalPricingEnabled",
            match self.is_regional_pricing_enabled {
                Some(b) => Some(bool_to_text(b)),
                None => None,
            },
        );
        fields
    }
}

} // verus!
