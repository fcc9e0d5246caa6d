//! The write-side use cases: registering and editing customers and
//! products, and registering sales against live stock.

use vstd::prelude::*;
use crate::dispatch::{Input, InputHandler, Store};
use crate::entities::{CustomerV, LineV, Product, ProductV, lines_view, total_of};
use crate::error::SharedError;
use crate::sales::{HeaderV, RowV, find_product, lemma_filtered_skus_unique, lemma_sku_lookup_filtered, str_eq_strings};
use crate::store::{has_cc, has_sku, product_views, sku_lookup};
use crate::value_objects::{CC, Email, Phone, Url, ValueObject, cc_valid, email_valid, phone_valid, url_valid};

verus! {

pub struct RegisterCustomerCommand {
    pub cc: String,
    pub name: String,
    pub email: String,
    pub phone: Option<String>,
    pub direction: Option<String>,
}

#[derive(Debug)]
pub struct RegisterCustomerOutput {
    pub id: u32,
}

impl Input for RegisterCustomerCommand {
    type Output = RegisterCustomerOutput;
}

/// What registering a customer does: on valid, unseen input exactly one
/// customer row is added under a fresh id; any failure writes nothing.
/// Registering an existing tax id is a conflict.
pub open spec fn register_customer_post(
    pre: Store,
    post: Store,
    input: RegisterCustomerCommand,
    r: Result<RegisterCustomerOutput, SharedError>,
) -> bool {
    let valid_input = cc_valid(input.cc@) && email_valid(input.email@) && (match input.phone {
        Some(p) => phone_valid(p@),
        None => true,
    });
    &&& post.products == pre.products
    &&& post.sales == pre.sales
    &&& post.credentials == pre.credentials
    &&& post.now == pre.now
    &&& (r is Ok <==> valid_input && !has_cc(pre.customers@, input.cc@) && pre.customers@.len()
        < u32::MAX)
    &&& r is Ok ==> post.customers@ =~= pre.customers@.push(
        CustomerV {
            id: (pre.customers@.len() + 1) as u32,
            cc: input.cc@,
            name: input.name@,
            email: input.email@,
            phone: match input.phone {
                Some(p) => Some(p@),
                None => None,
            },
            direction: match input.direction {
                Some(d) => Some(d@),
                None => None,
            },
            created_at: pre.now,
            updated_at: pre.now,
        },
    ) && r->Ok_0.id == pre.customers@.len() + 1
    &&& r is Err ==> post.customers@ == pre.customers@
    &&& !cc_valid(input.cc@) ==> r is Err && r->Err_0.code == 400 && r->Err_0.message@
        == "CC must be at least 5 characters long"@
    &&& cc_valid(input.cc@) && !email_valid(input.email@) ==> r is Err && r->Err_0.code == 400
        && r->Err_0.message@ == "Invalid email format"@
    &&& cc_valid(input.cc@) && email_valid(input.email@) && (match input.phone {
        Some(p) => !phone_valid(p@),
        None => false,
    }) ==> r is Err && r->Err_0.code == 400 && r->Err_0.message@ == "Invalid phone number format"@
    &&& valid_input && has_cc(pre.customers@, input.cc@) ==> r is Err && r->Err_0.code == 400
        && r->Err_0.message@ == "Customer already exists"@
    &&& valid_input && !has_cc(pre.customers@, input.cc@) && pre.customers@.len() == u32::MAX
        ==> r is Err && r->Err_0.code == 500
}

pub struct RegisterCustomerCommandHandler;

impl InputHandler<RegisterCustomerCommand> for RegisterCustomerCommandHandler {
    fn handle(&self, store: &mut Store, input: &RegisterCustomerCommand) -> (r: Result<
        RegisterCustomerOutput,
        SharedError,
    >)
        ensures
            register_customer_post(*old(store), *final(store), *input, r),
    {
        let cc = match CC::new(input.cc.clone()) {
            Ok(c) => c,
            Err(e) => {
                return Err(e);
            },
        };
        let email = match Email::new(input.email.clone()) {
            Ok(e) => e,
            Err(e) => {
                return Err(e);
            },
        };
        let phone = match &input.phone {
            Some(p) => match Phone::new(p.clone()) {
                Ok(p) => Some(p),
                Err(e) => {
                    return Err(e);
                },
            },
            None => None,
        };
        if let Some(_) = store.customers.get_by_cc(&cc) {
            return Err(SharedError::new("Customer already exists", 400));
        }
        let customer = match store.customers.create(
            &cc,
            input.name.as_str(),
            &email,
            phone.as_ref(),
            match &input.direction {
                Some(d) => Some(d.as_str()),
                None => None,
            },
            store.now,
        ) {
            Ok(c) => c,
            Err(e) => {
                return Err(e);
            },
        };
        Ok(RegisterCustomerOutput { id: customer.id() })
    }
}

#[derive(Debug, Clone)]
pub struct EditCustomerCommand {
    pub customer_id: u32,
    pub name: Option<String>,
    pub email: Option<String>,
    pub phone: Option<String>,
    pub direction: Option<String>,
}

impl Input for EditCustomerCommand {
    type Output = ();
}

/// What editing a customer does: the row keeps its id, tax id and creation
/// time; each given field is replaced; the update time advances. An unknown
/// id or an invalid field writes nothing.
pub open spec fn edit_customer_post(
    pre: Store,
    post: Store,
    input: EditCustomerCommand,
    r: Result<(), SharedError>,
) -> bool {
    let found = 1 <= input.customer_id <= pre.customers@.len();
    let email_ok = match input.email {
        Some(e) => email_valid(e@),
        None => true,
    };
    let phone_ok = match input.phone {
        Some(p) => phone_valid(p@),
        None => true,
    };
    let row = pre.customers@[input.customer_id - 1];
    &&& post.products == pre.products
    &&& post.sales == pre.sales
    &&& post.credentials == pre.credentials
    &&& post.now == pre.now
    &&& (r is Ok <==> found && email_ok && phone_ok)
    &&& r is Ok ==> post.customers@ =~= pre.customers@.update(
        input.customer_id - 1,
        CustomerV {
            name: match input.name {
                Some(n) => n@,
                None => row.name,
            },
            email: match input.email {
                Some(e) => e@,
                None => row.email,
            },
            phone: match input.phone {
                Some(p) => Some(p@),
                None => row.phone,
            },
            direction: match input.direction {
                Some(d) => Some(d@),
                None => row.direction,
            },
            updated_at: pre.now,
            ..row
        },
    )
    &&& r is Err ==> post.customers@ == pre.customers@
    &&& !found ==> r is Err && r->Err_0.code == 404 && r->Err_0.message@ == "Customer not found"@
    &&& found && !email_ok ==> r is Err && r->Err_0.code == 400 && r->Err_0.message@
        == "Invalid email format"@
    &&& found && email_ok && !phone_ok ==> r is Err && r->Err_0.code == 400 && r->Err_0.message@
        == "Invalid phone number format"@
}

pub struct EditCustomerCommandHandler;

impl InputHandler<EditCustomerCommand> for EditCustomerCommandHandler {
    fn handle(&self, store: &mut Store, input: &EditCustomerCommand) -> (r: Result<
        (),
        SharedError,
    >)
        ensures
            edit_customer_post(*old(store), *final(store), *input, r),
    {
        let mut customer = match store.customers.get_by_id(input.customer_id) {
            Some(c) => c,
            None => {
                return Err(SharedError::new("Customer not found", 404));
            },
        };
        if let Some(new_name) = &input.name {
            customer.set_name(new_name.clone());
        }
        if let Some(new_email) = &input.email {
            match Email::new(new_email.clone()) {
                Ok(e) => customer.set_email(e),
                Err(e) => {
                    return Err(e);
                },
            }
        }
        if let Some(new_phone) = &input.phone {
            match Phone::new(new_phone.clone()) {
                Ok(p) => customer.set_phone(Some(p)),
                Err(e) => {
                    return Err(e);
                },
            }
        }
        if let Some(new_direction) = &input.direction {
            customer.set_direction(Some(new_direction.clone()));
        }
        let r = store.customers.save(&customer, store.now);
        assert(forall|i: int|
            0 <= i < old(store).customers@.len() && #[trigger] old(store).customers@[i].cc
                == customer@.cc ==> i == input.customer_id - 1);
        r
    }
}

pub struct RegisterProductCommand {
    pub sku: String,
    pub name: String,
    pub description: Option<String>,
    pub stock: Option<u32>,
    pub price: u64,
    pub img_url: Option<String>,
    pub flags: Vec<String>,
}

#[derive(Debug)]
pub struct RegisterProductOutput {
    pub product_id: u32,
}

impl Input for RegisterProductCommand {
    type Output = RegisterProductOutput;
}

/// What registering a product does: on valid, unseen input exactly one
/// product row is added under a fresh id, with the given stock or zero; any
/// failure writes nothing. Registering an existing SKU is a conflict.
pub open spec fn register_product_post(
    pre: Store,
    post: Store,
    input: RegisterProductCommand,
    r: Result<RegisterProductOutput, SharedError>,
) -> bool {
    let url_ok = match input.img_url {
        Some(u) => url_valid(u@),
        None => true,
    };
    &&& post.customers == pre.customers
    &&& post.sales == pre.sales
    &&& post.credentials == pre.credentials
    &&& post.now == pre.now
    &&& (r is Ok <==> url_ok && !has_sku(pre.products@, input.sku@) && pre.products@.len()
        < u32::MAX)
    &&& r is Ok ==> post.products@ =~= pre.products@.push(
        ProductV {
            id: (pre.products@.len() + 1) as u32,
            sku: input.sku@,
            name: input.name@,
            price: input.price,
            stock: match input.stock {
                Some(s) => s,
                None => 0,
            },
            flags: input.flags.deep_view(),
            img_url: match input.img_url {
                Some(u) => Some(u@),
                None => None,
            },
            description: match input.description {
                Some(d) => Some(d@),
                None => None,
            },
            created_at: pre.now,
            updated_at: pre.now,
        },
    ) && r->Ok_0.product_id == pre.products@.len() + 1
    &&& r is Err ==> post.products@ == pre.products@
    &&& !url_ok ==> r is Err && r->Err_0.code == 400 && r->Err_0.message@ == "Invalid URL format"@
    &&& url_ok && has_sku(pre.products@, input.sku@) ==> r is Err && r->Err_0.code == 400
        && r->Err_0.message@ == "Product already exists"@
    &&& url_ok && !has_sku(pre.products@, input.sku@) && pre.products@.len() == u32::MAX ==> r
        is Err && r->Err_0.code == 500
}

pub struct RegisterProductCommandHandler;

impl InputHandler<RegisterProductCommand> for RegisterProductCommandHandler {
    fn handle(&self, store: &mut Store, input: &RegisterProductCommand) -> (r: Result<
        RegisterProductOutput,
        SharedError,
    >)
        ensures
            register_product_post(*old(store), *final(store), *input, r),
    {
        let img_url = match &input.img_url {
            Some(u) => match Url::new(u.clone()) {
                Ok(u) => Some(u),
                Err(e) => {
                    return Err(e);
                },
            },
            None => None,
        };
        if let Some(_) = store.products.get_by_sku(input.sku.as_str()) {
            return Err(SharedError::new("Product already exists", 400));
        }
        let stock = match input.stock {
            Some(s) => s,
            None => 0,
        };
        let product = match store.products.create(
            input.sku.as_str(),
            input.name.as_str(),
            input.price,
            stock,
            &input.flags,
            img_url.as_ref(),
            match &input.description {
                Some(d) => Some(d),
                None => None,
            },
            store.now,
        ) {
            Ok(p) => p,
            Err(e) => {
                return Err(e);
            },
        };
        Ok(RegisterProductOutput { product_id: product.id() })
    }
}

#[derive(Debug, Clone)]
pub struct EditProductCommand {
    pub product_id: u32,
    pub name: Option<String>,
    pub description: Option<String>,
    pub stock: Option<u32>,
    pub price: Option<u64>,
    pub img_url: Option<String>,
    pub flags: Option<Vec<String>>,
}

impl Input for EditProductCommand {
    type Output = ();
}

/// What editing a product does: the row keeps its id, SKU and creation
/// time; each given field is replaced; the update time advances. An unknown
/// id or an invalid URL writes nothing.
pub open spec fn edit_product_post(
    pre: Store,
    post: Store,
    input: EditProductCommand,
    r: Result<(), SharedError>,
) -> bool {
    let found = 1 <= input.product_id <= pre.products@.len();
    let url_ok = match input.img_url {
        Some(u) => url_valid(u@),
        None => true,
    };
    let row = pre.products@[input.product_id - 1];
    &&& post.customers == pre.customers
    &&& post.sales == pre.sales
    &&& post.credentials == pre.credentials
    &&& post.now == pre.now
    &&& (r is Ok <==> found && url_ok)
    &&& r is Ok ==> post.products@ =~= pre.products@.update(
        input.product_id - 1,
        ProductV {
            name: match input.name {
                Some(n) => n@,
                None => row.name,
            },
            price: match input.price {
                Some(p) => p,
                None => row.price,
            },
            stock: match input.stock {
                Some(s) => s,
                None => row.stock,
            },
            flags: match input.flags {
                Some(f) => f.deep_view(),
                None => row.flags,
            },
            img_url: match input.img_url {
                Some(u) => Some(u@),
                None => row.img_url,
            },
            description: match input.description {
                Some(d) => Some(d@),
                None => row.description,
            },
            updated_at: pre.now,
            ..row
        },
    )
    &&& r is Err ==> post.products@ == pre.products@
    &&& !found ==> r is Err && r->Err_0.code == 404 && r->Err_0.message@ == "Product not found"@
    &&& found && !url_ok ==> r is Err && r->Err_0.code == 400 && r->Err_0.message@
        == "Invalid URL format"@
}

pub struct EditProductCommandHandler;

impl InputHandler<EditProductCommand> for EditProductCommandHandler {
    fn handle(&self, store: &mut Store, input: &EditProductCommand) -> (r: Result<(), SharedError>)
        ensures
            edit_product_post(*old(store), *final(store), *input, r),
    {
        let mut product = match store.products.get_by_id(input.product_id) {
            Some(p) => p,
            None => {
                return Err(SharedError::new("Product not found", 404));
            },
        };
        if let Some(url) = &input.img_url {
            match Url::new(url.clone()) {
                Ok(u) => product.set_img_url(Some(u)),
                Err(e) => {
                    return Err(e);
                },
            }
        }
        if let Some(name) = &input.name {
            product.set_name(name.clone());
        }
        if let Some(stock) = input.stock {
            product.set_stock(stock);
        }
        if let Some(description) = &input.description {
            product.set_description(Some(description.clone()));
        }
        if let Some(price) = input.price {
            product.set_price(price);
        }
        if let Some(flags) = &input.flags {
            product.set_flags(crate::entities::clone_strings(flags));
        }
        store.products.save(&product, store.now)
    }
}

pub struct RegisterSaleCommand {
    pub customer_cc: String,
    pub product_skus_quantity: Vec<(String, u32)>,
}

#[derive(Debug)]
pub struct RegisterSaleOutput {
    pub sale_id: u32,
    pub total_amount: u64,
}

impl Input for RegisterSaleCommand {
    type Output = RegisterSaleOutput;
}

/// The views of the requested (SKU, quantity) pairs.
pub open spec fn pair_views(pairs: Seq<(String, u32)>) -> Seq<(Seq<char>, u32)> {
    pairs.map(|i: int, p: (String, u32)| (p.0@, p.1))
}

/// Some request line asks for this SKU.
pub open spec fn sku_requested(pairs: Seq<(Seq<char>, u32)>, sku: Seq<char>) -> bool {
    exists|i: int| 0 <= i < pairs.len() && #[trigger] pairs[i].0 == sku
}

/// The quantity requested for this SKU (meaningful when it is requested
/// exactly once).
pub open spec fn qty_for(pairs: Seq<(Seq<char>, u32)>, sku: Seq<char>) -> u32 {
    pairs[choose|i: int| 0 <= i < pairs.len() && #[trigger] pairs[i].0 == sku].1
}

/// No SKU is requested twice.
pub open spec fn pairs_distinct(pairs: Seq<(Seq<char>, u32)>) -> bool {
    forall|i: int, j: int| 0 <= i < j < pairs.len() ==> #[trigger] pairs[i].0 != #[trigger] pairs[j].0
}

/// Every requested SKU resolves to a product.
pub open spec fn all_requested_exist(products: Seq<ProductV>, pairs: Seq<(Seq<char>, u32)>) -> bool {
    forall|k: int| 0 <= k < pairs.len() ==> has_sku(products, #[trigger] pairs[k].0)
}

/// The line items a sale request resolves to against a product set.
pub open spec fn requested_lines(products: Seq<ProductV>, pairs: Seq<(Seq<char>, u32)>) -> Seq<
    LineV,
> {
    Seq::new(
        pairs.len(),
        |k: int| LineV { product: sku_lookup(products, pairs[k].0), quantity: pairs[k].1 },
    )
}

/// Every requested product has at least the requested quantity in stock.
pub open spec fn stocks_sufficient(products: Seq<ProductV>, pairs: Seq<(Seq<char>, u32)>) -> bool {
    forall|k: int|
        0 <= k < pairs.len() ==> sku_lookup(products, pairs[k].0).stock >= #[trigger] pairs[k].1
}

/// The product store after a sale: each requested SKU's stock decremented
/// by its quantity and its update time advanced; every other row, and every
/// other field, unchanged.
pub open spec fn products_after_sale(
    pre: Seq<ProductV>,
    post: Seq<ProductV>,
    pairs: Seq<(Seq<char>, u32)>,
    now: u64,
) -> bool {
    &&& post.len() == pre.len()
    &&& forall|j: int|
        0 <= j < pre.len() ==> #[trigger] post[j] == (if sku_requested(pairs, pre[j].sku) {
            ProductV {
                stock: (pre[j].stock - qty_for(pairs, pre[j].sku)) as u32,
                updated_at: now,
                ..pre[j]
            }
        } else {
            pre[j]
        })
}

/// What registering a sale does.
///
/// Success needs a valid tax id, a known customer, every requested SKU
/// known and requested only once, enough stock on every line, a
/// representable total, and room for a sale id; then, and only then, every
/// requested product's stock is decremented, one sale header and its
/// junction rows are recorded, and the derived total is returned. Any
/// failure writes nothing: in particular a request naming even one unknown
/// SKU commits no stock change and no sale row.
///
/// Two deliberate hardenings over an unguarded read-decrement-write on
/// stock: a line asking for more than the available stock is rejected
/// (stock can never go negative, and of two requests racing for the last
/// unit the one applied second is refused), and every failure point is
/// checked before the first write, so no partial application is observable.
pub open spec fn register_sale_post(
    pre: Store,
    post: Store,
    input: RegisterSaleCommand,
    r: Result<RegisterSaleOutput, SharedError>,
) -> bool {
    let pairs = pair_views(input.product_skus_quantity@);
    let cc_ok = cc_valid(input.customer_cc@);
    let cust_ok = has_cc(pre.customers@, input.customer_cc@);
    let exist_ok = all_requested_exist(pre.products@, pairs) && pairs_distinct(pairs);
    let stock_ok = stocks_sufficient(pre.products@, pairs);
    let total = total_of(requested_lines(pre.products@, pairs));
    let sale_id = pre.sales.headers_view().len() + 1;
    &&& post.customers == pre.customers
    &&& post.credentials == pre.credentials
    &&& post.now == pre.now
    &&& (r is Ok <==> cc_ok && cust_ok && exist_ok && stock_ok && total <= u64::MAX
        && pre.sales.headers_view().len() < u32::MAX)
    &&& r is Ok ==> {
        &&& products_after_sale(pre.products@, post.products@, pairs, pre.now)
        &&& post.sales.headers_view() =~= pre.sales.headers_view().push(
            HeaderV {
                id: sale_id as u32,
                customer_cc: input.customer_cc@,
                generated_at: pre.now,
            },
        )
        &&& post.sales.rows_view() =~= pre.sales.rows_view() + Seq::new(
            pairs.len(),
            |k: int|
                RowV { sale_id: sale_id as u32, product_sku: pairs[k].0, quantity: pairs[k].1 },
        )
        &&& r->Ok_0.sale_id == sale_id
        &&& r->Ok_0.total_amount == total
    }
    &&& r is Err ==> post.products@ == pre.products@ && post.sales.headers_view()
        == pre.sales.headers_view() && post.sales.rows_view() == pre.sales.rows_view()
    &&& !cc_ok ==> r is Err && r->Err_0.code == 400 && r->Err_0.message@
        == "CC must be at least 5 characters long"@
    &&& cc_ok && !cust_ok ==> r is Err && r->Err_0.code == 404 && r->Err_0.message@
        == "Customer not found"@
    &&& cc_ok && cust_ok && !exist_ok ==> r is Err && r->Err_0.code == 404 && r->Err_0.message@
        == "One or more products not found"@
    &&& cc_ok && cust_ok && exist_ok && !stock_ok ==> r is Err && r->Err_0.code == 400
        && r->Err_0.message@ == "Insufficient stock"@
    &&& cc_ok && cust_ok && exist_ok && stock_ok && total > u64::MAX ==> r is Err
        && r->Err_0.code == 400 && r->Err_0.message@ == "Sale total exceeds the representable amount"@
    &&& cc_ok && cust_ok && exist_ok && stock_ok && total <= u64::MAX
        && pre.sales.headers_view().len() == u32::MAX ==> r is Err && r->Err_0.code == 500
}

/// Two sale requests that each take the last unit of one product cannot
/// both succeed: the store applies them in some order, the first taking the
/// unit, and the second is then refused for want of stock, so stock is
/// never driven negative by the pair. (Each request here asks at least one
/// unit of that product on every line naming it.)
pub proof fn lemma_second_sale_rejected(
    s0: Store,
    s1: Store,
    s2: Store,
    first: RegisterSaleCommand,
    second: RegisterSaleCommand,
    r1: Result<RegisterSaleOutput, SharedError>,
    r2: Result<RegisterSaleOutput, SharedError>,
    sku: Seq<char>,
)
    requires
        s0.products.wf(),
        register_sale_post(s0, s1, first, r1),
        register_sale_post(s1, s2, second, r2),
        r1 is Ok,
        sku_requested(pair_views(first.product_skus_quantity@), sku),
        sku_requested(pair_views(second.product_skus_quantity@), sku),
        has_sku(s0.products@, sku),
        sku_lookup(s0.products@, sku).stock == 1,
        forall|k: int|
            0 <= k < pair_views(first.product_skus_quantity@).len() && #[trigger] pair_views(
                first.product_skus_quantity@,
            )[k].0 == sku ==> pair_views(first.product_skus_quantity@)[k].1 >= 1,
        forall|k: int|
            0 <= k < pair_views(second.product_skus_quantity@).len() && #[trigger] pair_views(
                second.product_skus_quantity@,
            )[k].0 == sku ==> pair_views(second.product_skus_quantity@)[k].1 >= 1,
    ensures
        r2 is Err,
{
    let pairs1 = pair_views(first.product_skus_quantity@);
    let pairs2 = pair_views(second.product_skus_quantity@);
    // The first request succeeded, so it asked exactly the one unit and the
    // product's row now shows stock zero.
    let j = choose|j: int| 0 <= j < s0.products@.len() && #[trigger] s0.products@[j].sku == sku;
    crate::store::lemma_sku_lookup_unique(s0.products@, j);
    let w = choose|w: int| 0 <= w < pairs1.len() && #[trigger] pairs1[w].0 == sku;
    assert(sku_lookup(s0.products@, pairs1[w].0).stock >= pairs1[w].1);
    let wq = choose|q: int| 0 <= q < pairs1.len() && #[trigger] pairs1[q].0 == sku;
    assert(pairs1[wq].1 >= 1);
    assert(qty_for(pairs1, sku) == pairs1[wq].1);
    assert(sku_lookup(s0.products@, pairs1[wq].0).stock >= pairs1[wq].1);
    assert(qty_for(pairs1, sku) == 1);
    assert(s1.products@[j] == (ProductV {
        stock: 0u32,
        updated_at: s0.now,
        ..s0.products@[j]
    }));
    // The same row still holds the SKU, and SKUs stay unique, so the second
    // request's stock gate sees zero stock for a line asking at least one.
    assert(s1.products@[j].sku == sku && s1.products@[j].stock == 0);
    assert forall|a: int, b: int| 0 <= a < b < s1.products@.len() implies #[trigger] s1.products@[a].sku
        != #[trigger] s1.products@[b].sku by {
        assert(s1.products@[a].sku == s0.products@[a].sku);
        assert(s1.products@[b].sku == s0.products@[b].sku);
    }
    crate::store::lemma_sku_lookup_unique(s1.products@, j);
    let k2 = choose|k: int| 0 <= k < pairs2.len() && #[trigger] pairs2[k].0 == sku;
    assert(pairs2[k2].1 >= 1);
    assert(sku_lookup(s1.products@, pairs2[k2].0).stock == 0);
    assert(!stocks_sufficient(s1.products@, pairs2));
}

pub struct RegisterSaleCommandHandler;

impl InputHandler<RegisterSaleCommand> for RegisterSaleCommandHandler {
    #[verifier::loop_isolation(false)]
    #[verifier::rlimit(60)]
    fn handle(&self, store: &mut Store, input: &RegisterSaleCommand) -> (r: Result<
        RegisterSaleOutput,
        SharedError,
    >)
        ensures
            register_sale_post(*old(store), *final(store), *input, r),
    {
        let ghost pairs = pair_views(input.product_skus_quantity@);
        let ghost pre_products = store.products@;
        // Validate the tax id.
        let cc = match CC::new(input.customer_cc.clone()) {
            Ok(c) => c,
            Err(e) => {
                return Err(e);
            },
        };
        // Resolve the customer.
        let customer = match store.customers.get_by_cc(&cc) {
            Some(c) => c,
            None => {
                return Err(SharedError::new("Customer not found", 404));
            },
        };
        proof {
            let wi = choose|i: int|
                0 <= i < store.customers@.len() && #[trigger] store.customers@[i].cc == cc@
                    && customer@ == store.customers@[i];
            assert(cc_valid(customer@.cc));
        }
        // One batched fetch of every requested product.
        let n = input.product_skus_quantity.len();
        let mut skus: Vec<String> = Vec::new();
        let mut i: usize = 0;
        while i < n
            invariant
                i <= n,
                skus@.len() == i,
                forall|k: int| 0 <= k < i ==> skus.deep_view()[k] == #[trigger] pairs[k].0,
            decreases n - i,
        {
            skus.push(input.product_skus_quantity[i].0.clone());
            i += 1;
        }
        let fetched = store.products.get_many_by_skus(&skus);
        let ghost fviews = product_views(fetched@);
        let ghost fpred = |p: ProductV| skus.deep_view().contains(p.sku);
        proof {
            lemma_filtered_skus_unique(store.products@, fpred);
        }
        // All-or-nothing existence gate: every SKU must resolve, and no SKU
        // may be requested twice.
        i = 0;
        while i < n
            invariant
                i <= n,
                forall|k: int| 0 <= k < i ==> has_sku(pre_products, #[trigger] pairs[k].0),
                forall|k1: int, k2: int|
                    0 <= k1 < k2 < i ==> #[trigger] pairs[k1].0 != #[trigger] pairs[k2].0,
            decreases n - i,
        {
            let mut j: usize = 0;
            while j < i
                invariant
                    j <= i < n,
                    forall|w: int| 0 <= w < j ==> #[trigger] pairs[w].0 != pairs[i as int].0,
                decreases i - j,
            {
                if str_eq_strings(
                    &input.product_skus_quantity[j].0,
                    &input.product_skus_quantity[i].0,
                ) {
                    assert(pairs[j as int].0 == input.product_skus_quantity@[j as int].0@);
                    assert(pairs[i as int].0 == input.product_skus_quantity@[i as int].0@);
                    assert(!pairs_distinct(pairs));
                    return Err(SharedError::new("One or more products not found", 404));
                }
                j += 1;
            }
            proof {
                assert(skus.deep_view()[i as int] == pairs[i as int].0);
                lemma_sku_lookup_filtered(pre_products, skus.deep_view(), pairs[i as int].0);
            }
            match find_product(&fetched, &input.product_skus_quantity[i].0) {
                Some(_) => {},
                None => {
                    return Err(SharedError::new("One or more products not found", 404));
                },
            }
            i += 1;
        }
        // Stock gate (a hardening): every line must be coverable.
        i = 0;
        while i < n
            invariant
                i <= n,
                forall|k: int|
                    0 <= k < i ==> sku_lookup(pre_products, pairs[k].0).stock
                        >= #[trigger] pairs[k].1,
            decreases n - i,
        {
            proof {
                assert(skus.deep_view()[i as int] == pairs[i as int].0);
                lemma_sku_lookup_filtered(pre_products, skus.deep_view(), pairs[i as int].0);
            }
            let p = match find_product(&fetched, &input.product_skus_quantity[i].0) {
                Some(p) => p,
                None => {
                    proof {
                        assert(false);
                    }
                    return Err(SharedError::new("One or more products not found", 404));
                },
            };
            proof {
                let wi = choose|w: int|
                    0 <= w < fviews.len() && #[trigger] fviews[w].sku == pairs[i as int].0 && p@
                        == fviews[w];
                crate::store::lemma_sku_lookup_unique(fviews, wi);
            }
            if p.stock() < input.product_skus_quantity[i].1 {
                assert(pairs[i as int].1 == input.product_skus_quantity@[i as int].1);
                assert(sku_lookup(pre_products, pairs[i as int].0).stock < pairs[i as int].1);
                assert(!stocks_sufficient(pre_products, pairs));
                return Err(SharedError::new("Insufficient stock", 400));
            }
            i += 1;
        }
        // Total gate (a hardening): the derived total must be representable.
        let ghost rlines = requested_lines(pre_products, pairs);
        let mut total: u64 = 0;
        i = 0;
        while i < n
            invariant
                i <= n,
                total == total_of(rlines.take(i as int)),
            decreases n - i,
        {
            proof {
                assert(skus.deep_view()[i as int] == pairs[i as int].0);
                lemma_sku_lookup_filtered(pre_products, skus.deep_view(), pairs[i as int].0);
            }
            let p = match find_product(&fetched, &input.product_skus_quantity[i].0) {
                Some(p) => p,
                None => {
                    proof {
                        assert(false);
                    }
                    return Err(SharedError::new("One or more products not found", 404));
                },
            };
            proof {
                let wi = choose|w: int|
                    0 <= w < fviews.len() && #[trigger] fviews[w].sku == pairs[i as int].0 && p@
                        == fviews[w];
                crate::store::lemma_sku_lookup_unique(fviews, wi);
                crate::entities::lemma_total_nonneg(rlines.take(i as int));
                assert(rlines.take(i + 1).drop_last() =~= rlines.take(i as int));
                assert(rlines.take(i + 1).last() == rlines[i as int]);
                assert(p@.price * input.product_skus_quantity@[i as int].1 <= u64::MAX
                    * u32::MAX) by (nonlinear_arith)
                    requires
                        0 <= p@.price <= u64::MAX,
                        0 <= input.product_skus_quantity@[i as int].1 <= u32::MAX,
                ;
            }
            let quantity = input.product_skus_quantity[i].1;
            let term: u128 = (p.price() as u128) * (quantity as u128);
            let wide: u128 = (total as u128) + term;
            if wide > u64::MAX as u128 {
                proof {
                    crate::entities::lemma_total_prefix_bound(rlines, i + 1);
                }
                return Err(SharedError::new("Sale total exceeds the representable amount", 400));
            }
            total = wide as u64;
            i += 1;
        }
        proof {
            assert(rlines.take(n as int) =~= rlines);
        }
        // Room for a sale id (a hardening: checked before the first write).
        if store.sales.len() >= u32::MAX as usize {
            return Err(SharedError::new("Failed to create sale", 500));
        }
        // Apply: snapshot each line, then decrement and persist its stock.
        let mut lines: Vec<(Product, u32)> = Vec::new();
        i = 0;
        while i < n
            invariant
                i <= n,
                lines@.len() == i,
                lines_view(lines@) =~= rlines.take(i as int),
                store.customers == old(store).customers,
                store.sales == old(store).sales,
                store.credentials == old(store).credentials,
                store.now == old(store).now,
                store.products@.len() == pre_products.len(),
                store.products.wf(),
                forall|j: int|
                    0 <= j < pre_products.len() ==> #[trigger] store.products@[j] == (if
                    sku_requested(pairs.take(i as int), pre_products[j].sku) {
                        ProductV {
                            stock: (pre_products[j].stock - qty_for(
                                pairs.take(i as int),
                                pre_products[j].sku,
                            )) as u32,
                            updated_at: store.now,
                            ..pre_products[j]
                        }
                    } else {
                        pre_products[j]
                    }),
            decreases n - i,
        {
            proof {
                assert(skus.deep_view()[i as int] == pairs[i as int].0);
                lemma_sku_lookup_filtered(pre_products, skus.deep_view(), pairs[i as int].0);
            }
            let pair = &input.product_skus_quantity[i];
            let p = match find_product(&fetched, &pair.0) {
                Some(p) => p,
                None => {
                    proof {
                        assert(false);
                    }
                    return Err(SharedError::new("One or more products not found", 404));
                },
            };
            let product = p.clone();
            proof {
                let wi = choose|w: int|
                    0 <= w < fviews.len() && #[trigger] fviews[w].sku == pairs[i as int].0 && p@
                        == fviews[w];
                crate::store::lemma_sku_lookup_unique(fviews, wi);
                // The row for this SKU is untouched so far: no earlier pair
                // names it.
                assert(!sku_requested(pairs.take(i as int), product@.sku));
            }
            let ghost row_index = product@.id - 1;
            proof {
                // The looked-up product is the store row at its id.
                let ghost target_sku = pairs[i as int].0;
                let si = choose|s: int|
                    0 <= s < pre_products.len() && #[trigger] pre_products[s].sku == target_sku;
                assert(pre_products[si].id == si + 1);
                crate::store::lemma_sku_lookup_unique(pre_products, si);
                assert(product@ == pre_products[row_index]);
                assert(store.products@[row_index] == pre_products[row_index]);
            }
            lines.push((product.clone(), pair.1));
            assert(lines_view(lines@) =~= rlines.take(i + 1));
            let current_stock = product.stock();
            let mut updated = product.clone();
            updated.set_stock(current_stock - pair.1);
            let ghost before_products = store.products@;
            match store.products.save(&updated, store.now) {
                Ok(_) => {},
                Err(_) => {},
            }
            proof {
                assert(store.products@ =~= before_products.update(
                    row_index,
                    ProductV {
                        stock: (pre_products[row_index].stock - pairs[i as int].1) as u32,
                        updated_at: store.now,
                        ..pre_products[row_index]
                    },
                ));
                assert(pairs.take(i + 1)[i as int] == pairs[i as int]);
                assert forall|j: int| 0 <= j < pre_products.len() implies #[trigger] store.products@[j]
                    == (if sku_requested(pairs.take(i + 1), pre_products[j].sku) {
                    ProductV {
                        stock: (pre_products[j].stock - qty_for(
                            pairs.take(i + 1),
                            pre_products[j].sku,
                        )) as u32,
                        updated_at: store.now,
                        ..pre_products[j]
                    }
                } else {
                    pre_products[j]
                }) by {
                    if j == row_index {
                        assert(sku_requested(pairs.take(i + 1), pre_products[j].sku));
                        let w = choose|w: int|
                            0 <= w < pairs.take(i + 1).len() && #[trigger] pairs.take(i + 1)[w].0
                                == pre_products[j].sku;
                        assert(w == i);
                    } else {
                        if sku_requested(pairs.take(i as int), pre_products[j].sku) {
                            let w0 = choose|w: int|
                                0 <= w < pairs.take(i as int).len() && #[trigger] pairs.take(
                                    i as int,
                                )[w].0 == pre_products[j].sku;
                            assert(pairs.take(i + 1)[w0].0 == pre_products[j].sku);
                            assert(sku_requested(pairs.take(i + 1), pre_products[j].sku));
                            let w1 = choose|w: int|
                                0 <= w < pairs.take(i + 1).len() && #[trigger] pairs.take(i + 1)[w].0
                                    == pre_products[j].sku;
                            assert(w0 == w1);
                            assert(qty_for(pairs.take(i + 1), pre_products[j].sku) == qty_for(
                                pairs.take(i as int),
                                pre_products[j].sku,
                            ));
                        } else {
                            if sku_requested(pairs.take(i + 1), pre_products[j].sku) {
                                let w = choose|w: int|
                                    0 <= w < pairs.take(i + 1).len() && #[trigger] pairs.take(
                                        i + 1,
                                    )[w].0 == pre_products[j].sku;
                                assert(w == i);
                                assert(pre_products[j].sku == pairs[i as int].0);
                                assert(j == row_index);
                                assert(false);
                            }
                        }
                    }
                }
            }
            i += 1;
        }
        proof {
            assert(pairs.take(n as int) =~= pairs);
            assert(lines_view(lines@) =~= rlines);
        }
        // Record the sale header and its junction rows.
        let sale = match store.sales.create(&customer, &lines, store.now) {
            Ok(s) => s,
            Err(e) => {
                proof {
                    assert(false);
                }
                return Err(e);
            },
        };
        proof {
            assert(customer@.cc == input.customer_cc@);
            assert forall|k: int| 0 <= k < pairs.len() implies lines@[k].0@.sku == (
            #[trigger] pairs[k]).0 && lines@[k].1 == pairs[k].1 by {
                assert(lines_view(lines@)[k] == rlines[k]);
                assert(sku_lookup(pre_products, pairs[k].0).sku == pairs[k].0);
            }
        }
        let sale_id = sale.id();
        proof {
            assert(sale@.lines == rlines);
            crate::entities::lemma_total_nonneg(rlines);
        }
        let total_amount = sale.total_amount();
        Ok(RegisterSaleOutput { sale_id, total_amount })
    }
}

} // verus!
