//! In-memory stores for customers and products.
//!
//! Each store is a sequence of records with sequentially assigned ids
//! (`record i` has id `i + 1`; records are never deleted) and a unique
//! business key (tax id for customers, SKU for products). List queries that
//! the backing table would order by creation time descending are served from
//! the reverse of insertion order here, which coincides with it whenever the
//! supplied timestamps are monotone.

use vstd::prelude::*;
use vstd::pervasive::VecAdditionalExecFns;
use crate::entities::{Customer, CustomerV, Product, ProductV, clone_strings};
use crate::error::SharedError;
use crate::pagination::{Pagination, PaginationResult, page_bounds, page_of};
use crate::value_objects::{CC, Email, Phone, Url, ValueObject, cc_valid};

verus! {

/// The views of a vector of customers.
pub open spec fn customer_views(s: Seq<Customer>) -> Seq<CustomerV> {
    s.map(|i: int, c: Customer| c@)
}

/// The views of a vector of products.
pub open spec fn product_views(s: Seq<Product>) -> Seq<ProductV> {
    s.map(|i: int, p: Product| p@)
}

/// Ids are assigned sequentially from 1 and rows are never deleted.
pub open spec fn customer_ids_sequential(s: Seq<CustomerV>) -> bool {
    forall|i: int| 0 <= i < s.len() ==> #[trigger] s[i].id == i + 1
}

pub open spec fn product_ids_sequential(s: Seq<ProductV>) -> bool {
    forall|i: int| 0 <= i < s.len() ==> #[trigger] s[i].id == i + 1
}

/// No two customers share a tax id.
pub open spec fn ccs_unique(s: Seq<CustomerV>) -> bool {
    forall|i: int, j: int| 0 <= i < j < s.len() ==> #[trigger] s[i].cc != #[trigger] s[j].cc
}

/// No two products share a SKU.
pub open spec fn skus_unique(s: Seq<ProductV>) -> bool {
    forall|i: int, j: int| 0 <= i < j < s.len() ==> #[trigger] s[i].sku != #[trigger] s[j].sku
}

/// Some customer holds this tax id.
pub open spec fn has_cc(s: Seq<CustomerV>, cc: Seq<char>) -> bool {
    exists|i: int| 0 <= i < s.len() && #[trigger] s[i].cc == cc
}

/// Some product holds this SKU.
pub open spec fn has_sku(s: Seq<ProductV>, sku: Seq<char>) -> bool {
    exists|i: int| 0 <= i < s.len() && #[trigger] s[i].sku == sku
}

/// The customer holding this tax id (meaningful when `has_cc` holds and the
/// tax ids are unique).
pub open spec fn cc_lookup(s: Seq<CustomerV>, cc: Seq<char>) -> CustomerV {
    s[choose|i: int| 0 <= i < s.len() && #[trigger] s[i].cc == cc]
}

/// The product holding this SKU (meaningful when `has_sku` holds and the
/// SKUs are unique).
pub open spec fn sku_lookup(s: Seq<ProductV>, sku: Seq<char>) -> ProductV {
    s[choose|i: int| 0 <= i < s.len() && #[trigger] s[i].sku == sku]
}

/// With unique tax ids, any match is the looked-up customer.
pub proof fn lemma_cc_lookup_unique(s: Seq<CustomerV>, i: int)
    requires
        ccs_unique(s),
        0 <= i < s.len(),
    ensures
        cc_lookup(s, s[i].cc) == s[i],
{
    let j = choose|j: int| 0 <= j < s.len() && #[trigger] s[j].cc == s[i].cc;
    if i != j {
        assert(s[i].cc != s[j].cc || s[j].cc != s[i].cc);
    }
}

/// With unique SKUs, any match is the looked-up product.
pub proof fn lemma_sku_lookup_unique(s: Seq<ProductV>, i: int)
    requires
        skus_unique(s),
        0 <= i < s.len(),
    ensures
        sku_lookup(s, s[i].sku) == s[i],
{
    let j = choose|j: int| 0 <= j < s.len() && #[trigger] s[j].sku == s[i].sku;
    if i != j {
        assert(s[i].sku != s[j].sku || s[j].sku != s[i].sku);
    }
}

/// One step of a filter over a growing prefix.
pub proof fn lemma_filter_take_step<T>(s: Seq<T>, pred: spec_fn(T) -> bool, i: int)
    requires
        0 <= i < s.len(),
    ensures
        s.take(i + 1).filter(pred) == if pred(s[i]) {
            s.take(i).filter(pred).push(s[i])
        } else {
            s.take(i).filter(pred)
        },
{
    reveal(Seq::filter);
    assert(s.take(i + 1).drop_last() =~= s.take(i));
    assert(s.take(i + 1).last() == s[i]);
}

pub struct CustomerStore {
    customers: Vec<Customer>,
}

impl View for CustomerStore {
    type V = Seq<CustomerV>;

    closed spec fn view(&self) -> Seq<CustomerV> {
        customer_views(self.customers@)
    }
}

impl CustomerStore {
    /// Ids sequential, tax ids unique, every stored tax id passed
    /// validation, and creation times nondecreasing in insertion order (the
    /// clock that stamps rows is monotone), so reverse insertion order is
    /// creation-time descending.
    pub open spec fn wf(self) -> bool {
        &&& customer_ids_sequential(self@)
        &&& ccs_unique(self@)
        &&& forall|i: int| 0 <= i < self@.len() ==> cc_valid(#[trigger] self@[i].cc)
        &&& forall|i: int, j: int|
            0 <= i < j < self@.len() ==> #[trigger] self@[i].created_at
                <= #[trigger] self@[j].created_at
    }

    pub fn new() -> (r: CustomerStore)
        ensures
            r@ =~= Seq::<CustomerV>::empty(),
            r.wf(),
    {
        CustomerStore { customers: Vec::new() }
    }

    pub fn len(&self) -> (r: usize)
        ensures
            r == self@.len(),
    {
        self.customers.len()
    }

    pub fn get_by_id(&self, id: u32) -> (r: Option<Customer>)
        requires
            self.wf(),
        ensures
            r is Some <==> 1 <= id <= self@.len(),
            r is Some ==> r->0@ == self@[id - 1],
    {
        if id >= 1 && (id as usize) <= self.customers.len() {
            let i = (id - 1) as usize;
            Some(self.customers[i].clone())
        } else {
            None
        }
    }

    pub fn get_by_cc(&self, cc: &CC) -> (r: Option<Customer>)
        ensures
            r is Some <==> has_cc(self@, cc@),
            r is Some ==> exists|i: int|
                0 <= i < self@.len() && #[trigger] self@[i].cc == cc@ && r->0@ == self@[i],
    {
        let n = self.customers.len();
        let mut i: usize = 0;
        while i < n
            invariant
                i <= n,
                n == self@.len(),
                forall|j: int| 0 <= j < i ==> #[trigger] self@[j].cc != cc@,
            decreases n - i,
        {
            if *self.customers[i].cc().value() == *cc.value() {
                assert(self@[i as int].cc == cc@);
                return Some(self.customers[i].clone());
            }
            i += 1;
        }
        None
    }

    /// Adds a customer under a fresh id. Fails when the tax id is already
    /// taken or the id space is exhausted; on failure nothing is written.
    pub fn create(
        &mut self,
        cc: &CC,
        name: &str,
        email: &Email,
        phone: Option<&Phone>,
        direction: Option<&str>,
        now: u64,
    ) -> (r: Result<Customer, SharedError>)
        requires
            old(self).wf(),
            cc_valid(cc@),
            forall|i: int| 0 <= i < old(self)@.len() ==> #[trigger] old(self)@[i].created_at <= now,
        ensures
            final(self).wf(),
            r is Ok <==> !has_cc(old(self)@, cc@) && old(self)@.len() < u32::MAX,
            r is Ok ==> final(self)@ =~= old(self)@.push(r->Ok_0@) && r->Ok_0@ == (CustomerV {
                id: (old(self)@.len() + 1) as u32,
                cc: cc@,
                name: name@,
                email: email@,
                phone: match phone {
                    Some(p) => Some(p@),
                    None => None::<Seq<char>>,
                },
                direction: match direction {
                    Some(d) => Some(d@),
                    None => None::<Seq<char>>,
                },
                created_at: now,
                updated_at: now,
            }),
            r is Err ==> final(self)@ == old(self)@ && r->Err_0.code == 500,
    {
        match self.get_by_cc(cc) {
            Some(_) => Err(SharedError::new("Failed to create customer", 500)),
            None => {
                if self.customers.len() >= u32::MAX as usize {
                    return Err(SharedError::new("Failed to create customer", 500));
                }
                let id = (self.customers.len() + 1) as u32;
                let customer = Customer::new(
                    id,
                    cc.clone(),
                    name.to_owned(),
                    email.clone(),
                    match phone {
                        Some(p) => Some(p.clone()),
                        None => None,
                    },
                    match direction {
                        Some(d) => Some(d.to_owned()),
                        None => None,
                    },
                    now,
                    now,
                );
                let snapshot = customer.clone();
                self.customers.push(customer);
                assert(self@ =~= old(self)@.push(snapshot@));
                Ok(snapshot)
            },
        }
    }

    /// Updates the stored customer holding this customer's tax id, setting
    /// its mutable fields and its update time; a missing tax id updates
    /// nothing, as a row-less update would.
    pub fn save(&mut self, customer: &Customer, now: u64) -> (r: Result<(), SharedError>)
        requires
            old(self).wf(),
        ensures
            final(self).wf(),
            r is Ok,
            !has_cc(old(self)@, customer@.cc) ==> final(self)@ == old(self)@,
            forall|i: int|
                0 <= i < old(self)@.len() && #[trigger] old(self)@[i].cc == customer@.cc
                    ==> final(self)@ =~= old(self)@.update(
                    i,
                    CustomerV {
                        name: customer@.name,
                        email: customer@.email,
                        phone: customer@.phone,
                        direction: customer@.direction,
                        updated_at: now,
                        ..old(self)@[i]
                    },
                ),
    {
        let n = self.customers.len();
        let mut i: usize = 0;
        while i < n
            invariant
                n == self@.len(),
                i <= n,
                self@ == old(self)@,
                self.wf(),
                forall|j: int| 0 <= j < i ==> #[trigger] self@[j].cc != customer@.cc,
            decreases n - i,
        {
            if *self.customers[i].cc().value() == *customer.cc().value() {
                let mut updated = self.customers[i].clone();
                updated.set_name(customer.name().clone());
                updated.set_email(customer.email().clone());
                updated.set_phone(
                    match customer.phone() {
                        Some(p) => Some(p.clone()),
                        None => None,
                    },
                );
                updated.set_direction(
                    match customer.direction() {
                        Some(d) => Some(d.clone()),
                        None => None,
                    },
                );
                updated.set_updated_at(now);
                self.customers.set(i, updated);
                assert(self@ =~= old(self)@.update(
                    i as int,
                    CustomerV {
                        name: customer@.name,
                        email: customer@.email,
                        phone: customer@.phone,
                        direction: customer@.direction,
                        updated_at: now,
                        ..old(self)@[i as int]
                    },
                ));
                assert(forall|k: int|
                    0 <= k < old(self)@.len() && #[trigger] old(self)@[k].cc == customer@.cc ==> k
                        == i);
                return Ok(());
            }
            i += 1;
        }
        Ok(())
    }

    #[verifier::loop_isolation(false)]
    pub fn get_many_by_cc(&self, many_cc: &Vec<CC>) -> (r: Vec<Customer>)
        ensures
            customer_views(r@) == self@.filter(
                |c: CustomerV| cc_views(many_cc@).contains(c.cc),
            ),
    {
        let n = self.customers.len();
        let mut r: Vec<Customer> = Vec::new();
        let ghost pred = |c: CustomerV| cc_views(many_cc@).contains(c.cc);
        let mut i: usize = 0;
        while i < n
            invariant
                i <= n,
                n == self@.len(),
                r@.len() == self@.take(i as int).filter(pred).len(),
                customer_views(r@) =~= self@.take(i as int).filter(pred),
            decreases n - i,
        {
            proof {
                lemma_filter_take_step(self@, pred, i as int);
            }
            if contains_cc(many_cc, self.customers[i].cc()) {
                r.push(self.customers[i].clone());
                assert(customer_views(r@) =~= self@.take(i + 1).filter(pred));
            }
            i += 1;
        }
        proof {
            assert(self@.take(n as int) =~= self@);
        }
        r
    }

    pub fn get_paginated(&self, pagination: &Pagination) -> (r: PaginationResult<Customer>)
        requires
            self.wf(),
            pagination.wf(),
        ensures
            customer_views(r.items@) == page_of(
                self@.reverse(),
                pagination.page as int,
                pagination.per_page as int,
            ),
            forall|a: int, b: int|
                0 <= a < b < r.items@.len() ==> #[trigger] customer_views(r.items@)[a].created_at
                    >= #[trigger] customer_views(r.items@)[b].created_at,
            r.items_count == r.items@.len(),
            r.total_items == self@.len(),
            r.current_page == pagination.page,
            r.per_page == pagination.per_page,
    {
        let n = self.customers.len();
        proof {
            lemma_store_len_u32(self@);
        }
        let envelope = PaginationResult::empty(pagination, n as u32);
        let (start, count) = page_bounds(n, pagination);
        let ghost window = page_of(
            self@.reverse(),
            pagination.page as int,
            pagination.per_page as int,
        );
        let mut items: Vec<Customer> = Vec::new();
        let mut k: usize = 0;
        while k < count
            invariant
                k <= count,
                start + count <= n,
                n == self@.len(),
                window.len() == count,
                forall|j: int| 0 <= j < count ==> window[j] == self@.reverse()[start + j],
                items@.len() == k,
                customer_views(items@) =~= window.take(k as int),
            decreases count - k,
        {
            let idx = n - 1 - (start + k);
            items.push(self.customers[idx].clone());
            assert(customer_views(items@) =~= window.take(k + 1));
            k += 1;
        }
        proof {
            assert(window.take(count as int) =~= window);
            assert forall|a: int, b: int| 0 <= a < b < window.len() implies #[trigger] window[a].created_at
                >= #[trigger] window[b].created_at by {
                assert(window[a] == self@[n - 1 - (start + a)]);
                assert(window[b] == self@[n - 1 - (start + b)]);
            }
        }
        envelope.with_data(items)
    }

    pub fn get_all(&self) -> (r: Vec<Customer>)
        ensures
            customer_views(r@) == self@,
    {
        let n = self.customers.len();
        let mut r: Vec<Customer> = Vec::new();
        let mut i: usize = 0;
        while i < n
            invariant
                i <= n,
                n == self@.len(),
                r@.len() == i,
                customer_views(r@) =~= self@.take(i as int),
            decreases n - i,
        {
            r.push(self.customers[i].clone());
            assert(customer_views(r@) =~= self@.take(i + 1));
            i += 1;
        }
        proof {
            assert(self@.take(n as int) =~= self@);
        }
        r
    }
}

/// The views of a vector of tax ids.
pub open spec fn cc_views(s: Seq<CC>) -> Seq<Seq<char>> {
    s.map(|i: int, c: CC| c@)
}

/// Scans a list of tax ids for one equal to `cc`.
fn contains_cc(many_cc: &Vec<CC>, cc: &CC) -> (r: bool)
    ensures
        r == cc_views(many_cc@).contains(cc@),
{
    let n = many_cc.len();
    let mut i: usize = 0;
    while i < n
        invariant
            i <= n,
            n == many_cc@.len(),
            forall|j: int| 0 <= j < i ==> #[trigger] cc_views(many_cc@)[j] != cc@,
        decreases n - i,
    {
        if *many_cc[i].value() == *cc.value() {
            assert(cc_views(many_cc@)[i as int] == cc@);
            return true;
        }
        i += 1;
    }
    false
}

/// A store whose ids are sequential holds at most `u32::MAX` rows.
pub proof fn lemma_store_len_u32(s: Seq<CustomerV>)
    requires
        customer_ids_sequential(s),
    ensures
        s.len() <= u32::MAX,
{
    if s.len() > u32::MAX {
        assert(s[u32::MAX as int].id == u32::MAX + 1);
    }
}

/// A product store whose ids are sequential holds at most `u32::MAX` rows.
pub proof fn lemma_product_store_len_u32(s: Seq<ProductV>)
    requires
        product_ids_sequential(s),
    ensures
        s.len() <= u32::MAX,
{
    if s.len() > u32::MAX {
        assert(s[u32::MAX as int].id == u32::MAX + 1);
    }
}

pub struct ProductStore {
    products: Vec<Product>,
}

impl View for ProductStore {
    type V = Seq<ProductV>;

    closed spec fn view(&self) -> Seq<ProductV> {
        product_views(self.products@)
    }
}

impl ProductStore {
    pub open spec fn wf(self) -> bool {
        product_ids_sequential(self@) && skus_unique(self@)
    }

    pub fn new() -> (r: ProductStore)
        ensures
            r@ =~= Seq::<ProductV>::empty(),
            r.wf(),
    {
        ProductStore { products: Vec::new() }
    }

    pub fn len(&self) -> (r: usize)
        ensures
            r == self@.len(),
    {
        self.products.len()
    }

    pub fn get_by_id(&self, id: u32) -> (r: Option<Product>)
        requires
            self.wf(),
        ensures
            r is Some <==> 1 <= id <= self@.len(),
            r is Some ==> r->0@ == self@[id - 1],
    {
        if id >= 1 && (id as usize) <= self.products.len() {
            let i = (id - 1) as usize;
            Some(self.products[i].clone())
        } else {
            None
        }
    }

    pub fn get_by_sku(&self, sku: &str) -> (r: Option<Product>)
        ensures
            r is Some <==> has_sku(self@, sku@),
            r is Some ==> exists|i: int|
                0 <= i < self@.len() && #[trigger] self@[i].sku == sku@ && r->0@ == self@[i],
    {
        let n = self.products.len();
        let mut i: usize = 0;
        while i < n
            invariant
                i <= n,
                n == self@.len(),
                forall|j: int| 0 <= j < i ==> #[trigger] self@[j].sku != sku@,
            decreases n - i,
        {
            if str_eq(self.products[i].sku().as_str(), sku) {
                assert(self@[i as int].sku == sku@);
                return Some(self.products[i].clone());
            }
            i += 1;
        }
        None
    }

    #[verifier::loop_isolation(false)]
    pub fn get_many_by_skus(&self, skus: &Vec<String>) -> (r: Vec<Product>)
        ensures
            product_views(r@) == self@.filter(|p: ProductV| skus.deep_view().contains(p.sku)),
    {
        let n = self.products.len();
        let mut r: Vec<Product> = Vec::new();
        let ghost pred = |p: ProductV| skus.deep_view().contains(p.sku);
        let mut i: usize = 0;
        while i < n
            invariant
                i <= n,
                n == self@.len(),
                r@.len() == self@.take(i as int).filter(pred).len(),
                product_views(r@) =~= self@.take(i as int).filter(pred),
            decreases n - i,
        {
            proof {
                lemma_filter_take_step(self@, pred, i as int);
            }
            if contains_str(skus, self.products[i].sku()) {
                r.push(self.products[i].clone());
                assert(product_views(r@) =~= self@.take(i + 1).filter(pred));
            }
            i += 1;
        }
        proof {
            assert(self@.take(n as int) =~= self@);
        }
        r
    }

    /// Adds a product under a fresh id. Fails when the SKU is already taken
    /// or the id space is exhausted; on failure nothing is written.
    pub fn create(
        &mut self,
        sku: &str,
        name: &str,
        price: u64,
        stock: u32,
        flags: &Vec<String>,
        img_url: Option<&Url>,
        description: Option<&String>,
        now: u64,
    ) -> (r: Result<Product, SharedError>)
        requires
            old(self).wf(),
        ensures
            final(self).wf(),
            r is Ok <==> !has_sku(old(self)@, sku@) && old(self)@.len() < u32::MAX,
            r is Ok ==> final(self)@ =~= old(self)@.push(r->Ok_0@) && r->Ok_0@ == (ProductV {
                id: (old(self)@.len() + 1) as u32,
                sku: sku@,
                name: name@,
                price,
                stock,
                flags: flags.deep_view(),
                img_url: match img_url {
                    Some(u) => Some(u@),
                    None => None::<Seq<char>>,
                },
                description: match description {
                    Some(d) => Some(d@),
                    None => None::<Seq<char>>,
                },
                created_at: now,
                updated_at: now,
            }),
            r is Err ==> final(self)@ == old(self)@ && r->Err_0.code == 500,
    {
        match self.get_by_sku(sku) {
            Some(_) => Err(SharedError::new("Failed to create product", 500)),
            None => {
                if self.products.len() >= u32::MAX as usize {
                    return Err(SharedError::new("Failed to create product", 500));
                }
                let id = (self.products.len() + 1) as u32;
                let product = Product::new(
                    id,
                    sku.to_owned(),
                    name.to_owned(),
                    price,
                    stock,
                    clone_strings(flags),
                    match img_url {
                        Some(u) => Some(u.clone()),
                        None => None,
                    },
                    match description {
                        Some(d) => Some(d.clone()),
                        None => None,
                    },
                    now,
                    now,
                );
                let snapshot = product.clone();
                self.products.push(product);
                assert(self@ =~= old(self)@.push(snapshot@));
                Ok(snapshot)
            },
        }
    }

    /// Updates the stored product holding this product's id, setting its
    /// mutable fields (the SKU and creation time are fixed) and its update
    /// time; an unknown id updates nothing, as a row-less update would.
    pub fn save(&mut self, product: &Product, now: u64) -> (r: Result<(), SharedError>)
        requires
            old(self).wf(),
        ensures
            final(self).wf(),
            r is Ok,
            !(1 <= product@.id <= old(self)@.len()) ==> final(self)@ == old(self)@,
            1 <= product@.id <= old(self)@.len() ==> final(self)@ =~= old(self)@.update(
                product@.id - 1,
                ProductV {
                    name: product@.name,
                    price: product@.price,
                    stock: product@.stock,
                    flags: product@.flags,
                    img_url: product@.img_url,
                    description: product@.description,
                    updated_at: now,
                    ..old(self)@[product@.id - 1]
                },
            ),
    {
        let id = product.id();
        if id >= 1 && (id as usize) <= self.products.len() {
            let i = (id - 1) as usize;
            let mut updated = self.products[i].clone();
            updated.set_name(product.name().clone());
            updated.set_price(product.price());
            updated.set_stock(product.stock());
            updated.set_flags(clone_strings(product.flags()));
            updated.set_img_url(
                match product.img_url() {
                    Some(u) => Some(u.clone()),
                    None => None,
                },
            );
            updated.set_description(
                match product.description() {
                    Some(d) => Some(d.clone()),
                    None => None,
                },
            );
            updated.set_updated_at(now);
            self.products.set(i, updated);
            assert(self@ =~= old(self)@.update(
                i as int,
                ProductV {
                    name: product@.name,
                    price: product@.price,
                    stock: product@.stock,
                    flags: product@.flags,
                    img_url: product@.img_url,
                    description: product@.description,
                    updated_at: now,
                    ..old(self)@[i as int]
                },
            ));
        }
        Ok(())
    }

    pub fn get_paginated(&self, pagination: &Pagination) -> (r: PaginationResult<Product>)
        requires
            self.wf(),
            pagination.wf(),
        ensures
            product_views(r.items@) == page_of(
                self@,
                pagination.page as int,
                pagination.per_page as int,
            ),
            r.items_count == r.items@.len(),
            r.total_items == self@.len(),
            r.current_page == pagination.page,
            r.per_page == pagination.per_page,
    {
        let n = self.products.len();
        proof {
            lemma_product_store_len_u32(self@);
        }
        let envelope = PaginationResult::empty(pagination, n as u32);
        let (start, count) = page_bounds(n, pagination);
        let ghost window = page_of(self@, pagination.page as int, pagination.per_page as int);
        let mut items: Vec<Product> = Vec::new();
        let mut k: usize = 0;
        while k < count
            invariant
                k <= count,
                start + count <= n,
                n == self@.len(),
                window.len() == count,
                forall|j: int| 0 <= j < count ==> window[j] == self@[start + j],
                items@.len() == k,
                product_views(items@) =~= window.take(k as int),
            decreases count - k,
        {
            items.push(self.products[start + k].clone());
            assert(product_views(items@) =~= window.take(k + 1));
            k += 1;
        }
        proof {
            assert(window.take(count as int) =~= window);
        }
        envelope.with_data(items)
    }
}

/// Scans a list of strings for one equal to `s`.
fn contains_str(strings: &Vec<String>, s: &String) -> (r: bool)
    ensures
        r == strings.deep_view().contains(s@),
{
    let n = strings.len();
    let mut i: usize = 0;
    while i < n
        invariant
            i <= n,
            n == strings@.len(),
            forall|j: int| 0 <= j < i ==> #[trigger] strings.deep_view()[j] != s@,
        decreases n - i,
    {
        if strings[i] == *s {
            assert(strings.deep_view()[i as int] == s@);
            return true;
        }
        i += 1;
    }
    false
}

/// Compares two string slices for equal contents.
fn str_eq(a: &str, b: &str) -> (r: bool)
    ensures
        r == (a@ == b@),
{
    let x = a.to_owned();
    let y = b.to_owned();
    x == y
}

} // verus!
