//! The sale store and the join that reconstructs sales.
//!
//! A sale is persisted as a header row (id, customer tax id, generation
//! time) plus junction rows (sale id, product SKU, quantity). Every read
//! must re-join the three collections: resolve the header's customer by tax
//! id and each junction row's product by SKU, both against batched lookups
//! rather than one query per row. A header whose customer cannot be
//! resolved, or a junction row whose product cannot be resolved, is skipped
//! rather than failing the whole read.
//!
//! Reconstruction resolves products against their current rows, so a
//! reconstructed sale reflects the product's current price and name, not
//! the ones at sale time; the snapshot returned by `create` is the only
//! record of those.

use vstd::prelude::*;
use crate::entities::{Customer, CustomerV, LineV, Product, ProductV, Sale, SaleV, lines_view};
use crate::error::SharedError;
use crate::pagination::{Pagination, PaginationResult, page_bounds, page_of};
use crate::store::{
    CustomerStore, ProductStore, cc_lookup, cc_views, customer_views, has_cc, has_sku,
    lemma_cc_lookup_unique, lemma_filter_take_step, lemma_sku_lookup_unique, product_views,
    sku_lookup, skus_unique, ccs_unique,
};
use crate::textfmt::MAX_TIMESTAMP;
use crate::value_objects::{CC, ValueObject, cc_valid};

verus! {

/// The mathematical content of a sale header row.
pub struct HeaderV {
    pub id: u32,
    pub customer_cc: Seq<char>,
    pub generated_at: u64,
}

/// A sale header row.
pub struct SaleHeader {
    id: u32,
    customer_cc: String,
    generated_at: u64,
}

impl View for SaleHeader {
    type V = HeaderV;

    closed spec fn view(&self) -> HeaderV {
        HeaderV { id: self.id, customer_cc: self.customer_cc@, generated_at: self.generated_at }
    }
}

/// The mathematical content of a junction row.
pub struct RowV {
    pub sale_id: u32,
    pub product_sku: Seq<char>,
    pub quantity: u32,
}

/// A junction row: one line item of one sale.
pub struct SaleLine {
    sale_id: u32,
    product_sku: String,
    quantity: u32,
}

impl View for SaleLine {
    type V = RowV;

    closed spec fn view(&self) -> RowV {
        RowV { sale_id: self.sale_id, product_sku: self.product_sku@, quantity: self.quantity }
    }
}

/// The views of a vector of headers.
pub open spec fn header_views(s: Seq<SaleHeader>) -> Seq<HeaderV> {
    s.map(|i: int, h: SaleHeader| h@)
}

/// The views of a vector of junction rows.
pub open spec fn row_views(s: Seq<SaleLine>) -> Seq<RowV> {
    s.map(|i: int, l: SaleLine| l@)
}

/// The views of a vector of sales.
pub open spec fn sale_views(s: Seq<Sale>) -> Seq<SaleV> {
    s.map(|i: int, x: Sale| x@)
}

/// The line items of sale `sale_id`: its junction rows in order, each
/// resolved against the product set; a row whose SKU resolves to no product
/// is skipped.
pub open spec fn assemble_lines(sale_id: u32, rows: Seq<RowV>, products: Seq<ProductV>) -> Seq<
    LineV,
>
    decreases rows.len(),
{
    if rows.len() == 0 {
        Seq::empty()
    } else {
        let rest = assemble_lines(sale_id, rows.drop_last(), products);
        let row = rows.last();
        if row.sale_id == sale_id && has_sku(products, row.product_sku) {
            rest.push(
                LineV { product: sku_lookup(products, row.product_sku), quantity: row.quantity },
            )
        } else {
            rest
        }
    }
}

/// One header joined against the other collections: `None` when its
/// customer cannot be resolved (the whole sale is then skipped).
pub open spec fn assemble_sale(
    h: HeaderV,
    customers: Seq<CustomerV>,
    rows: Seq<RowV>,
    products: Seq<ProductV>,
) -> Option<SaleV> {
    if has_cc(customers, h.customer_cc) {
        Some(
            SaleV {
                id: h.id,
                lines: assemble_lines(h.id, rows, products),
                customer: cc_lookup(customers, h.customer_cc),
                generated_at: h.generated_at,
            },
        )
    } else {
        None
    }
}

/// All headers joined in order, skipping the unresolvable ones.
pub open spec fn assemble_sales(
    hs: Seq<HeaderV>,
    customers: Seq<CustomerV>,
    rows: Seq<RowV>,
    products: Seq<ProductV>,
) -> Seq<SaleV>
    decreases hs.len(),
{
    if hs.len() == 0 {
        Seq::empty()
    } else {
        let rest = assemble_sales(hs.drop_last(), customers, rows, products);
        match assemble_sale(hs.last(), customers, rows, products) {
            Some(s) => rest.push(s),
            None => rest,
        }
    }
}

pub struct SaleStore {
    headers: Vec<SaleHeader>,
    rows: Vec<SaleLine>,
}

impl SaleStore {
    /// The header rows, as mathematical values.
    pub closed spec fn headers_view(&self) -> Seq<HeaderV> {
        header_views(self.headers@)
    }

    /// The junction rows, as mathematical values.
    pub closed spec fn rows_view(&self) -> Seq<RowV> {
        row_views(self.rows@)
    }

    /// Header ids are sequential from 1, header tax ids passed validation,
    /// header times are renderable and nondecreasing in insertion order
    /// (the clock that stamps headers is monotone, so reverse insertion
    /// order is generation-time descending), and junction rows reference
    /// existing headers.
    pub open spec fn wf(self) -> bool {
        &&& forall|i: int|
            0 <= i < self.headers_view().len() ==> #[trigger] self.headers_view()[i].id == i + 1
        &&& forall|i: int|
            0 <= i < self.headers_view().len() ==> cc_valid(
                #[trigger] self.headers_view()[i].customer_cc,
            )
        &&& forall|i: int|
            0 <= i < self.headers_view().len() ==> #[trigger] self.headers_view()[i].generated_at
                <= MAX_TIMESTAMP
        &&& forall|i: int, j: int|
            0 <= i < j < self.headers_view().len() ==> #[trigger] self.headers_view()[i].generated_at
                <= #[trigger] self.headers_view()[j].generated_at
        &&& forall|j: int|
            0 <= j < self.rows_view().len() ==> 1 <= #[trigger] self.rows_view()[j].sale_id
                <= self.headers_view().len()
    }

    pub fn new() -> (r: SaleStore)
        ensures
            r.headers_view() =~= Seq::<HeaderV>::empty(),
            r.rows_view() =~= Seq::<RowV>::empty(),
            r.wf(),
    {
        SaleStore { headers: Vec::new(), rows: Vec::new() }
    }

    pub fn len(&self) -> (r: usize)
        ensures
            r == self.headers_view().len(),
    {
        self.headers.len()
    }

    /// Records a sale: one header row plus one junction row per line item,
    /// and returns the sale built from the given snapshots. An empty line
    /// list is accepted and yields a sale with no line items and total
    /// zero. Fails only when the id space is exhausted, writing nothing.
    #[verifier::loop_isolation(false)]
    pub fn create(&mut self, customer: &Customer, products_sale: &Vec<(Product, u32)>, now: u64) -> (r:
        Result<Sale, SharedError>)
        requires
            old(self).wf(),
            cc_valid(customer@.cc),
            now <= MAX_TIMESTAMP,
            forall|i: int|
                0 <= i < old(self).headers_view().len()
                    ==> #[trigger] old(self).headers_view()[i].generated_at <= now,
        ensures
            final(self).wf(),
            r is Ok <==> old(self).headers_view().len() < u32::MAX,
            r is Ok ==> {
                let id = (old(self).headers_view().len() + 1) as u32;
                &&& final(self).headers_view() =~= old(self).headers_view().push(
                    HeaderV { id, customer_cc: customer@.cc, generated_at: now },
                )
                &&& final(self).rows_view() =~= old(self).rows_view() + Seq::new(
                    products_sale@.len(),
                    |i: int|
                        RowV {
                            sale_id: id,
                            product_sku: products_sale@[i].0@.sku,
                            quantity: products_sale@[i].1,
                        },
                )
                &&& r->Ok_0@ == (SaleV {
                    id,
                    lines: lines_view(products_sale@),
                    customer: customer@,
                    generated_at: now,
                })
            },
            r is Err ==> final(self).headers_view() == old(self).headers_view()
                && final(self).rows_view() == old(self).rows_view() && r->Err_0.code == 500,
    {
        if self.headers.len() >= u32::MAX as usize {
            return Err(SharedError::new("Failed to create sale", 500));
        }
        let id = (self.headers.len() + 1) as u32;
        let header = SaleHeader {
            id,
            customer_cc: customer.cc().value().clone(),
            generated_at: now,
        };
        self.headers.push(header);
        assert(self.headers_view() =~= old(self).headers_view().push(
            HeaderV { id, customer_cc: customer@.cc, generated_at: now },
        ));
        let ghost new_rows = Seq::new(
            products_sale@.len(),
            |i: int|
                RowV {
                    sale_id: id,
                    product_sku: products_sale@[i].0@.sku,
                    quantity: products_sale@[i].1,
                },
        );
        let n = products_sale.len();
        let mut k: usize = 0;
        while k < n
            invariant
                k <= n,
                self.rows@.len() == old(self).rows@.len() + k,
                self.rows_view() =~= old(self).rows_view() + new_rows.take(k as int),
                self.headers_view() =~= old(self).headers_view().push(
                    HeaderV { id, customer_cc: customer@.cc, generated_at: now },
                ),
            decreases n - k,
        {
            let ghost prev = self.rows@;
            let pair = &products_sale[k];
            let line = SaleLine { sale_id: id, product_sku: pair.0.sku().clone(), quantity: pair.1 };
            assert(line@ == new_rows[k as int]);
            self.rows.push(line);
            assert(self.rows@ == prev.push(line));
            assert(row_views(prev.push(line)) =~= row_views(prev).push(line@));
            assert(new_rows.take(k + 1) =~= new_rows.take(k as int).push(new_rows[k as int]));
            assert(old(self).rows_view() + new_rows.take(k + 1) =~= (old(self).rows_view()
                + new_rows.take(k as int)).push(new_rows[k as int]));
            assert(self.rows_view() =~= old(self).rows_view() + new_rows.take(k + 1));
            k += 1;
        }
        assert(self.rows_view() =~= old(self).rows_view() + new_rows);
        let mut snapshot_lines: Vec<(Product, u32)> = Vec::new();
        let mut k2: usize = 0;
        while k2 < n
            invariant
                k2 <= n,
                snapshot_lines@.len() == k2,
                lines_view(snapshot_lines@) =~= lines_view(products_sale@).take(k2 as int),
            decreases n - k2,
        {
            let pair = &products_sale[k2];
            snapshot_lines.push((pair.0.clone(), pair.1));
            assert(lines_view(snapshot_lines@) =~= lines_view(products_sale@).take(k2 + 1));
            k2 += 1;
        }
        assert(lines_view(snapshot_lines@) =~= lines_view(products_sale@));
        Ok(Sale::new(id, snapshot_lines, customer.clone(), now))
    }

    /// Reconstructs one sale by id: resolve its customer, then each of its
    /// junction rows. `None` when the header or its customer is absent; a
    /// row whose product is absent is skipped.
    #[verifier::loop_isolation(false)]
    pub fn get_by_id(&self, id: &u32, customers: &CustomerStore, products: &ProductStore) -> (r:
        Option<Sale>)
        requires
            self.wf(),
            customers.wf(),
            products.wf(),
        ensures
            r is Some <==> 1 <= *id <= self.headers_view().len() && has_cc(
                customers@,
                self.headers_view()[*id - 1].customer_cc,
            ),
            r is Some ==> Some(r->0@) == assemble_sale(
                self.headers_view()[*id - 1],
                customers@,
                self.rows_view(),
                products@,
            ),
    {
        if *id < 1 || (*id as usize) > self.headers.len() {
            return None;
        }
        let hi = (*id - 1) as usize;
        let header = &self.headers[hi];
        assert(header@ == self.headers_view()[*id - 1]);
        assert(header@.id == *id);
        let cc = match CC::new(header.customer_cc.clone()) {
            Ok(c) => c,
            Err(_) => {
                proof {
                    assert(false);
                }
                return None;
            },
        };
        let customer = match customers.get_by_cc(&cc) {
            Some(c) => c,
            None => {
                return None;
            },
        };
        proof {
            let wi = choose|i: int|
                0 <= i < customers@.len() && #[trigger] customers@[i].cc == cc@ && customer@
                    == customers@[i];
            lemma_cc_lookup_unique(customers@, wi);
        }
        let lines = self.lines_for(header.id, products);
        Some(Sale::new(header.id, lines, customer, header.generated_at))
    }

    /// The resolved line items of sale `sale_id`, each junction row looked
    /// up against the product store, skipping rows whose SKU is unknown.
    #[verifier::loop_isolation(false)]
    fn lines_for(&self, sale_id: u32, products: &ProductStore) -> (r: Vec<(Product, u32)>)
        requires
            products.wf(),
        ensures
            lines_view(r@) == assemble_lines(sale_id, self.rows_view(), products@),
    {
        let n = self.rows.len();
        let mut lines: Vec<(Product, u32)> = Vec::new();
        let mut j: usize = 0;
        while j < n
            invariant
                j <= n,
                lines_view(lines@) =~= assemble_lines(
                    sale_id,
                    self.rows_view().take(j as int),
                    products@,
                ),
            decreases n - j,
        {
            let row = &self.rows[j];
            assert(row@ == self.rows_view()[j as int]);
            assert(self.rows_view().take(j + 1).drop_last() =~= self.rows_view().take(j as int));
            assert(self.rows_view().take(j + 1).last() == row@);
            if row.sale_id == sale_id {
                match products.get_by_sku(row.product_sku.as_str()) {
                    Some(p) => {
                        proof {
                            let wi = choose|i: int|
                                0 <= i < products@.len() && #[trigger] products@[i].sku
                                    == row@.product_sku && p@ == products@[i];
                            lemma_sku_lookup_unique(products@, wi);
                        }
                        let ghost before = lines_view(lines@);
                        lines.push((p, row.quantity));
                        assert(lines_view(lines@) =~= before.push(
                            LineV {
                                product: sku_lookup(products@, row@.product_sku),
                                quantity: row@.quantity,
                            },
                        ));
                    },
                    None => {},
                }
            }
            j += 1;
        }
        assert(self.rows_view().take(n as int) =~= self.rows_view());
        lines
    }
}

impl SaleStore {
    /// The SKU of every junction row, in row order, for one batched product
    /// fetch.
    #[verifier::loop_isolation(false)]
    fn all_row_skus(&self) -> (r: Vec<String>)
        ensures
            r@.len() == self.rows_view().len(),
            forall|j: int|
                0 <= j < r@.len() ==> r.deep_view()[j] == #[trigger] self.rows_view()[j].product_sku,
    {
        let n = self.rows.len();
        let mut r: Vec<String> = Vec::new();
        let mut j: usize = 0;
        while j < n
            invariant
                j <= n,
                r@.len() == j,
                forall|k: int|
                    0 <= k < j ==> r.deep_view()[k] == #[trigger] self.rows_view()[k].product_sku,
            decreases n - j,
        {
            r.push(self.rows[j].product_sku.clone());
            j += 1;
        }
        r
    }

    /// Reconstructs every sale: one batched fetch of all customers, one
    /// batched fetch of the products behind all junction rows, then an
    /// in-memory join; a sale with an unresolvable customer is skipped.
    #[verifier::loop_isolation(false)]
    pub fn get_all(&self, customers: &CustomerStore, products: &ProductStore) -> (r: Vec<Sale>)
        requires
            self.wf(),
            customers.wf(),
            products.wf(),
        ensures
            sale_views(r@) == assemble_sales(
                self.headers_view(),
                customers@,
                self.rows_view(),
                products@,
            ),
    {
        let all_customers = customers.get_all();
        let skus = self.all_row_skus();
        let fetched = products.get_many_by_skus(&skus);
        let ghost fpred = |p: ProductV| skus.deep_view().contains(p.sku);
        proof {
            lemma_filtered_skus_unique(products@, fpred);
            assert(forall|j: int|
                0 <= j < self.rows_view().len() ==> skus.deep_view().contains(
                    #[trigger] self.rows_view()[j].product_sku,
                ));
        }
        let n = self.headers.len();
        let mut out: Vec<Sale> = Vec::new();
        let mut t: usize = 0;
        while t < n
            invariant
                t <= n,
                sale_views(out@) =~= assemble_sales(
                    self.headers_view().take(t as int),
                    customers@,
                    self.rows_view(),
                    products@,
                ),
            decreases n - t,
        {
            let header = &self.headers[t];
            assert(header@ == self.headers_view()[t as int]);
            assert(self.headers_view().take(t + 1).drop_last() =~= self.headers_view().take(
                t as int,
            ));
            assert(self.headers_view().take(t + 1).last() == header@);
            match find_customer(&all_customers, &header.customer_cc) {
                None => {
                    assert(!has_cc(customers@, header@.customer_cc));
                },
                Some(c) => {
                    let customer = c.clone();
                    proof {
                        let wi = choose|i: int|
                            0 <= i < customer_views(all_customers@).len() && #[trigger] customer_views(
                                all_customers@,
                            )[i].cc == header@.customer_cc && customer@ == customer_views(
                                all_customers@,
                            )[i];
                        lemma_cc_lookup_unique(customers@, wi);
                    }
                    let lines = self.lines_from_fetched(header.id, &fetched);
                    proof {
                        lemma_assemble_lines_filtered(
                            header.id,
                            self.rows_view(),
                            products@,
                            skus.deep_view(),
                        );
                    }
                    let ghost before = sale_views(out@);
                    out.push(Sale::new(header.id, lines, customer, header.generated_at));
                    assert(sale_views(out@) =~= before.push(
                        assemble_sale(header@, customers@, self.rows_view(), products@)->0,
                    ));
                },
            }
            t += 1;
        }
        assert(self.headers_view().take(n as int) =~= self.headers_view());
        out
    }

    /// The resolved line items of sale `sale_id`, each junction row looked
    /// up in an already-fetched product list, skipping unresolved rows.
    #[verifier::loop_isolation(false)]
    fn lines_from_fetched(&self, sale_id: u32, fetched: &Vec<Product>) -> (r: Vec<(Product, u32)>)
        requires
            skus_unique(product_views(fetched@)),
        ensures
            lines_view(r@) == assemble_lines(sale_id, self.rows_view(), product_views(fetched@)),
    {
        let n = self.rows.len();
        let mut lines: Vec<(Product, u32)> = Vec::new();
        let mut j: usize = 0;
        while j < n
            invariant
                j <= n,
                lines_view(lines@) =~= assemble_lines(
                    sale_id,
                    self.rows_view().take(j as int),
                    product_views(fetched@),
                ),
            decreases n - j,
        {
            let row = &self.rows[j];
            assert(row@ == self.rows_view()[j as int]);
            assert(self.rows_view().take(j + 1).drop_last() =~= self.rows_view().take(j as int));
            assert(self.rows_view().take(j + 1).last() == row@);
            if row.sale_id == sale_id {
                match find_product(fetched, &row.product_sku) {
                    Some(p) => {
                        let product = p.clone();
                        proof {
                            let wi = choose|i: int|
                                0 <= i < product_views(fetched@).len() && #[trigger] product_views(
                                    fetched@,
                                )[i].sku == row@.product_sku && product@ == product_views(
                                    fetched@,
                                )[i];
                            lemma_sku_lookup_unique(product_views(fetched@), wi);
                        }
                        let ghost before = lines_view(lines@);
                        lines.push((product, row.quantity));
                        assert(lines_view(lines@) =~= before.push(
                            LineV {
                                product: sku_lookup(product_views(fetched@), row@.product_sku),
                                quantity: row@.quantity,
                            },
                        ));
                    },
                    None => {},
                }
            }
            j += 1;
        }
        assert(self.rows_view().take(n as int) =~= self.rows_view());
        lines
    }

    /// Reconstructs every sale of one customer. An unknown customer yields
    /// no sales; otherwise the customer's headers are joined in order.
    #[verifier::loop_isolation(false)]
    pub fn get_all_by_customer_cc(
        &self,
        cc: &CC,
        customers: &CustomerStore,
        products: &ProductStore,
    ) -> (r: Vec<Sale>)
        requires
            self.wf(),
            customers.wf(),
            products.wf(),
        ensures
            sale_views(r@) == if has_cc(customers@, cc@) {
                assemble_sales(
                    self.headers_view().filter(|h: HeaderV| h.customer_cc == cc@),
                    customers@,
                    self.rows_view(),
                    products@,
                )
            } else {
                Seq::<SaleV>::empty()
            },
    {
        let customer = match customers.get_by_cc(cc) {
            Some(c) => c,
            None => {
                return Vec::new();
            },
        };
        proof {
            let wi = choose|i: int|
                0 <= i < customers@.len() && #[trigger] customers@[i].cc == cc@ && customer@
                    == customers@[i];
            lemma_cc_lookup_unique(customers@, wi);
        }
        let ghost hpred = |h: HeaderV| h.customer_cc == cc@;
        let n = self.headers.len();
        let mut out: Vec<Sale> = Vec::new();
        let mut t: usize = 0;
        while t < n
            invariant
                t <= n,
                sale_views(out@) =~= assemble_sales(
                    self.headers_view().take(t as int).filter(hpred),
                    customers@,
                    self.rows_view(),
                    products@,
                ),
            decreases n - t,
        {
            proof {
                lemma_filter_take_step(self.headers_view(), hpred, t as int);
            }
            let header = &self.headers[t];
            assert(header@ == self.headers_view()[t as int]);
            if str_eq_strings(&header.customer_cc, cc.value()) {
                let ghost taken = self.headers_view().take(t as int).filter(hpred);
                assert(taken.push(header@).drop_last() =~= taken);
                let lines = self.lines_for(header.id, products);
                let ghost before = sale_views(out@);
                out.push(Sale::new(header.id, lines, customer.clone(), header.generated_at));
                assert(sale_views(out@) =~= before.push(
                    assemble_sale(header@, customers@, self.rows_view(), products@)->0,
                ));
            }
            t += 1;
        }
        assert(self.headers_view().take(n as int) =~= self.headers_view());
        out
    }

    /// Reconstructs one page of sales, newest first: the page of headers,
    /// one batched fetch of the page's customers, one batched fetch of the
    /// products behind the junction rows, then the in-memory join.
    /// `total_items` is the raw header count, independent of any join-time
    /// skips.
    #[verifier::loop_isolation(false)]
    pub fn get_paginated(
        &self,
        pagination: &Pagination,
        customers: &CustomerStore,
        products: &ProductStore,
    ) -> (r: PaginationResult<Sale>)
        requires
            self.wf(),
            customers.wf(),
            products.wf(),
            pagination.wf(),
        ensures
            sale_views(r.items@) == assemble_sales(
                page_of(
                    self.headers_view().reverse(),
                    pagination.page as int,
                    pagination.per_page as int,
                ),
                customers@,
                self.rows_view(),
                products@,
            ),
            forall|a: int, b: int|
                0 <= a < b < r.items@.len() ==> #[trigger] sale_views(r.items@)[a].generated_at
                    >= #[trigger] sale_views(r.items@)[b].generated_at,
            r.items_count == r.items@.len(),
            r.total_items == self.headers_view().len(),
            r.current_page == pagination.page,
            r.per_page == pagination.per_page,
    {
        let n = self.headers.len();
        proof {
            lemma_sale_store_len_u32(self.headers_view());
        }
        let envelope = PaginationResult::empty(pagination, n as u32);
        let (start, count) = page_bounds(n, pagination);
        let ghost window = page_of(
            self.headers_view().reverse(),
            pagination.page as int,
            pagination.per_page as int,
        );
        assert(forall|j: int|
            0 <= j < count ==> window[j] == self.headers_view()[n - 1 - (start + j)]);
        // Collect the page's tax ids for one batched customer fetch.
        let mut page_ccs: Vec<CC> = Vec::new();
        let mut k: usize = 0;
        while k < count
            invariant
                k <= count,
                page_ccs@.len() == k,
                forall|j: int|
                    0 <= j < k ==> cc_views(page_ccs@)[j] == #[trigger] window[j].customer_cc,
            decreases count - k,
        {
            let idx = n - 1 - (start + k);
            assert(self.headers_view()[idx as int] == window[k as int]);
            assert(cc_valid(self.headers_view()[idx as int].customer_cc));
            match CC::new(self.headers[idx].customer_cc.clone()) {
                Ok(c) => {
                    page_ccs.push(c);
                },
                Err(_) => {
                    proof {
                        assert(false);
                    }
                },
            }
            k += 1;
        }
        let fetched_customers = customers.get_many_by_cc(&page_ccs);
        let ghost cpred = |c: CustomerV| cc_views(page_ccs@).contains(c.cc);
        proof {
            lemma_filtered_ccs_unique(customers@, cpred);
        }
        let skus = self.all_row_skus();
        let fetched = products.get_many_by_skus(&skus);
        let ghost fpred = |p: ProductV| skus.deep_view().contains(p.sku);
        proof {
            lemma_filtered_skus_unique(products@, fpred);
            assert(forall|j: int|
                0 <= j < self.rows_view().len() ==> skus.deep_view().contains(
                    #[trigger] self.rows_view()[j].product_sku,
                ));
        }
        let mut items: Vec<Sale> = Vec::new();
        let mut t: usize = 0;
        while t < count
            invariant
                t <= count,
                sale_views(items@) =~= assemble_sales(
                    window.take(t as int),
                    customers@,
                    self.rows_view(),
                    products@,
                ),
            decreases count - t,
        {
            let idx = n - 1 - (start + t);
            let header = &self.headers[idx];
            assert(header@ == window[t as int]);
            assert(window.take(t + 1).drop_last() =~= window.take(t as int));
            assert(window.take(t + 1).last() == header@);
            proof {
                assert(cc_views(page_ccs@)[t as int] == header@.customer_cc);
                assert(cc_views(page_ccs@).contains(header@.customer_cc));
                lemma_cc_lookup_filtered(customers@, cc_views(page_ccs@), header@.customer_cc);
            }
            match find_customer(&fetched_customers, &header.customer_cc) {
                None => {
                    assert(!has_cc(customers@, header@.customer_cc));
                },
                Some(c) => {
                    let customer = c.clone();
                    proof {
                        let fviews = customer_views(fetched_customers@);
                        let wi = choose|i: int|
                            0 <= i < fviews.len() && #[trigger] fviews[i].cc == header@.customer_cc
                                && customer@ == fviews[i];
                        lemma_cc_lookup_unique(fviews, wi);
                    }
                    let lines = self.lines_from_fetched(header.id, &fetched);
                    proof {
                        lemma_assemble_lines_filtered(
                            header.id,
                            self.rows_view(),
                            products@,
                            skus.deep_view(),
                        );
                    }
                    let ghost before = sale_views(items@);
                    items.push(Sale::new(header.id, lines, customer, header.generated_at));
                    assert(sale_views(items@) =~= before.push(
                        assemble_sale(header@, customers@, self.rows_view(), products@)->0,
                    ));
                },
            }
            t += 1;
        }
        assert(window.take(count as int) =~= window);
        proof {
            lemma_assemble_sales_len(window, customers@, self.rows_view(), products@);
            assert forall|a: int, b: int| 0 <= a < b < window.len() implies #[trigger] window[a].generated_at
                >= #[trigger] window[b].generated_at by {
                assert(window[a] == self.headers_view()[n - 1 - (start + a)]);
                assert(window[b] == self.headers_view()[n - 1 - (start + b)]);
            }
            lemma_assembled_times_ordered(window, customers@, self.rows_view(), products@);
        }
        envelope.with_data(items)
    }
}

/// A store is consistent when no header or junction row dangles: every
/// header's customer and every row's product can be resolved.
pub open spec fn consistent(
    headers: Seq<HeaderV>,
    customers: Seq<CustomerV>,
    rows: Seq<RowV>,
    products: Seq<ProductV>,
) -> bool {
    &&& forall|i: int|
        0 <= i < headers.len() ==> has_cc(customers, #[trigger] headers[i].customer_cc)
    &&& forall|j: int| 0 <= j < rows.len() ==> has_sku(products, #[trigger] rows[j].product_sku)
}

/// Join completeness under normal data, for the line items: when every
/// junction row's product resolves, sale `sale_id` gets exactly its
/// junction rows as line items, in order, each resolved to the product
/// holding its SKU.
pub proof fn lemma_lines_complete(sale_id: u32, rows: Seq<RowV>, products: Seq<ProductV>)
    requires
        forall|j: int| 0 <= j < rows.len() ==> has_sku(products, #[trigger] rows[j].product_sku),
    ensures
        assemble_lines(sale_id, rows, products) == rows.filter(
            |l: RowV| l.sale_id == sale_id,
        ).map(
            |k: int, l: RowV| LineV { product: sku_lookup(products, l.product_sku), quantity: l.quantity },
        ),
    decreases rows.len(),
{
    reveal(Seq::filter);
    let pred = |l: RowV| l.sale_id == sale_id;
    let resolve = |k: int, l: RowV|
        LineV { product: sku_lookup(products, l.product_sku), quantity: l.quantity };
    if rows.len() == 0 {
        assert(assemble_lines(sale_id, rows, products) =~= rows.filter(pred).map(resolve));
    } else {
        let d = rows.drop_last();
        lemma_lines_complete(sale_id, d, products);
        if pred(rows.last()) {
            assert(rows.filter(pred) == d.filter(pred).push(rows.last()));
            assert(rows.filter(pred).map(resolve) =~= d.filter(pred).map(resolve).push(
                resolve(0, rows.last()),
            ));
        } else {
            assert(rows.filter(pred) == d.filter(pred));
        }
    }
}

/// Join completeness under normal data: for a consistent store, the join
/// returns exactly one sale per header, in order, each with its id,
/// generation time, resolved customer and resolved line items.
pub proof fn lemma_join_complete(
    headers: Seq<HeaderV>,
    customers: Seq<CustomerV>,
    rows: Seq<RowV>,
    products: Seq<ProductV>,
)
    requires
        consistent(headers, customers, rows, products),
    ensures
        assemble_sales(headers, customers, rows, products).len() == headers.len(),
        forall|i: int|
            0 <= i < headers.len() ==> #[trigger] assemble_sales(headers, customers, rows, products)[i]
                == (SaleV {
                id: headers[i].id,
                lines: assemble_lines(headers[i].id, rows, products),
                customer: cc_lookup(customers, headers[i].customer_cc),
                generated_at: headers[i].generated_at,
            }),
    decreases headers.len(),
{
    if headers.len() > 0 {
        let d = headers.drop_last();
        lemma_join_complete(d, customers, rows, products);
        assert(has_cc(customers, headers.last().customer_cc));
        assert(forall|i: int|
            0 <= i < d.len() ==> #[trigger] assemble_sales(d, customers, rows, products)[i]
                == assemble_sales(headers, customers, rows, products)[i]);
    }
}

/// Every assembled sale carries some header's generation time, so a lower
/// bound on the headers' times bounds the assembled times from below.
pub proof fn lemma_assembled_times_lower(
    hs: Seq<HeaderV>,
    customers: Seq<CustomerV>,
    rows: Seq<RowV>,
    products: Seq<ProductV>,
    bound: u64,
)
    requires
        forall|i: int| 0 <= i < hs.len() ==> #[trigger] hs[i].generated_at >= bound,
    ensures
        forall|k: int|
            0 <= k < assemble_sales(hs, customers, rows, products).len()
                ==> #[trigger] assemble_sales(hs, customers, rows, products)[k].generated_at
                >= bound,
    decreases hs.len(),
{
    if hs.len() > 0 {
        let d = hs.drop_last();
        lemma_assembled_times_lower(d, customers, rows, products, bound);
    }
}

/// A join of headers whose times descend yields sales whose times descend:
/// skipping unresolvable headers keeps the survivors' order.
pub proof fn lemma_assembled_times_ordered(
    hs: Seq<HeaderV>,
    customers: Seq<CustomerV>,
    rows: Seq<RowV>,
    products: Seq<ProductV>,
)
    requires
        forall|a: int, b: int|
            0 <= a < b < hs.len() ==> #[trigger] hs[a].generated_at
                >= #[trigger] hs[b].generated_at,
    ensures
        forall|a: int, b: int|
            0 <= a < b < assemble_sales(hs, customers, rows, products).len()
                ==> #[trigger] assemble_sales(hs, customers, rows, products)[a].generated_at
                >= #[trigger] assemble_sales(hs, customers, rows, products)[b].generated_at,
    decreases hs.len(),
{
    if hs.len() > 0 {
        let d = hs.drop_last();
        let last = hs.last();
        assert(forall|a: int, b: int|
            0 <= a < b < d.len() ==> #[trigger] d[a].generated_at
                >= #[trigger] d[b].generated_at);
        lemma_assembled_times_ordered(d, customers, rows, products);
        if has_cc(customers, last.customer_cc) {
            // Every earlier assembled sale's time is at least the last
            // header's time.
            assert(forall|i: int|
                0 <= i < d.len() ==> #[trigger] d[i].generated_at >= last.generated_at);
            lemma_assembled_times_lower(d, customers, rows, products, last.generated_at);
            let whole = assemble_sales(hs, customers, rows, products);
            let rest = assemble_sales(d, customers, rows, products);
            assert forall|a: int, b: int|
                0 <= a < b < whole.len() implies #[trigger] whole[a].generated_at
                >= #[trigger] whole[b].generated_at by {
                if b < rest.len() {
                    assert(rest[a].generated_at >= rest[b].generated_at);
                } else {
                    assert(whole[b].generated_at == last.generated_at);
                    assert(rest[a].generated_at >= last.generated_at);
                }
            }
        }
    }
}

/// Every assembled sale carries some header's generation time, so a bound
/// on the headers' times bounds the assembled times.
pub proof fn lemma_assembled_times_bounded(
    hs: Seq<HeaderV>,
    customers: Seq<CustomerV>,
    rows: Seq<RowV>,
    products: Seq<ProductV>,
    bound: u64,
)
    requires
        forall|i: int| 0 <= i < hs.len() ==> #[trigger] hs[i].generated_at <= bound,
    ensures
        forall|k: int|
            0 <= k < assemble_sales(hs, customers, rows, products).len()
                ==> #[trigger] assemble_sales(hs, customers, rows, products)[k].generated_at
                <= bound,
    decreases hs.len(),
{
    if hs.len() > 0 {
        let d = hs.drop_last();
        lemma_assembled_times_bounded(d, customers, rows, products, bound);
    }
}

/// A join returns at most one sale per header.
pub proof fn lemma_assemble_sales_len(
    hs: Seq<HeaderV>,
    customers: Seq<CustomerV>,
    rows: Seq<RowV>,
    products: Seq<ProductV>,
)
    ensures
        assemble_sales(hs, customers, rows, products).len() <= hs.len(),
    decreases hs.len(),
{
    if hs.len() > 0 {
        lemma_assemble_sales_len(hs.drop_last(), customers, rows, products);
    }
}

/// A sale store whose header ids are sequential holds at most `u32::MAX`
/// headers.
pub proof fn lemma_sale_store_len_u32(s: Seq<HeaderV>)
    requires
        forall|i: int| 0 <= i < s.len() ==> #[trigger] s[i].id == i + 1,
    ensures
        s.len() <= u32::MAX,
{
    if s.len() > u32::MAX {
        assert(s[u32::MAX as int].id == u32::MAX + 1);
    }
}

/// Scans a fetched customer list for a tax id.
pub(crate) fn find_customer<'a>(list: &'a Vec<Customer>, cc: &String) -> (r: Option<&'a Customer>)
    ensures
        r is Some <==> has_cc(customer_views(list@), cc@),
        r is Some ==> exists|i: int|
            0 <= i < list@.len() && #[trigger] customer_views(list@)[i].cc == cc@ && r->0@
                == customer_views(list@)[i],
{
    let n = list.len();
    let mut i: usize = 0;
    while i < n
        invariant
            i <= n,
            n == list@.len(),
            forall|j: int| 0 <= j < i ==> #[trigger] customer_views(list@)[j].cc != cc@,
        decreases n - i,
    {
        if *list[i].cc().value() == *cc {
            assert(customer_views(list@)[i as int].cc == cc@);
            return Some(&list[i]);
        }
        i += 1;
    }
    None
}

/// Scans a fetched product list for a SKU.
pub(crate) fn find_product<'a>(list: &'a Vec<Product>, sku: &String) -> (r: Option<&'a Product>)
    ensures
        r is Some <==> has_sku(product_views(list@), sku@),
        r is Some ==> exists|i: int|
            0 <= i < list@.len() && #[trigger] product_views(list@)[i].sku == sku@ && r->0@
                == product_views(list@)[i],
{
    let n = list.len();
    let mut i: usize = 0;
    while i < n
        invariant
            i <= n,
            n == list@.len(),
            forall|j: int| 0 <= j < i ==> #[trigger] product_views(list@)[j].sku != sku@,
        decreases n - i,
    {
        if *list[i].sku() == *sku {
            assert(product_views(list@)[i as int].sku == sku@);
            return Some(&list[i]);
        }
        i += 1;
    }
    None
}

/// Compares two strings for equal contents.
pub(crate) fn str_eq_strings(a: &String, b: &String) -> (r: bool)
    ensures
        r == (a@ == b@),
{
    *a == *b
}

/// Every element of a filtered sequence occurs in the original.
pub proof fn lemma_filter_members<T>(s: Seq<T>, pred: spec_fn(T) -> bool)
    ensures
        forall|i: int|
            0 <= i < s.filter(pred).len() ==> s.contains(#[trigger] s.filter(pred)[i]),
    decreases s.len(),
{
    reveal(Seq::filter);
    if s.len() > 0 {
        let d = s.drop_last();
        lemma_filter_members(d, pred);
        assert forall|i: int|
            0 <= i < s.filter(pred).len() implies s.contains(#[trigger] s.filter(pred)[i]) by {
            if i < d.filter(pred).len() {
                let x = d.filter(pred)[i];
                let j = choose|j: int| 0 <= j < d.len() && d[j] == x;
                assert(s[j] == x);
            } else {
                assert(s.filter(pred)[i] == s.last());
                assert(s[s.len() - 1] == s.last());
            }
        }
    }
}

/// Filtering preserves SKU uniqueness.
pub proof fn lemma_filtered_skus_unique(products: Seq<ProductV>, pred: spec_fn(ProductV) -> bool)
    requires
        skus_unique(products),
    ensures
        skus_unique(products.filter(pred)),
    decreases products.len(),
{
    reveal(Seq::filter);
    if products.len() > 0 {
        let d = products.drop_last();
        assert(skus_unique(d));
        lemma_filtered_skus_unique(d, pred);
        lemma_filter_members(d, pred);
        if pred(products.last()) {
            let f = products.filter(pred);
            assert forall|i: int, j: int| 0 <= i < j < f.len() implies #[trigger] f[i].sku
                != #[trigger] f[j].sku by {
                if j < d.filter(pred).len() {
                    assert(d.filter(pred)[i].sku != d.filter(pred)[j].sku);
                } else {
                    assert(f[j] == products.last());
                    let x = d.filter(pred)[i];
                    let w = choose|w: int| 0 <= w < d.len() && d[w] == x;
                    assert(products[w] == x);
                    assert(products[w].sku != products[products.len() - 1].sku);
                }
            }
        }
    }
}

/// Filtering preserves tax-id uniqueness.
pub proof fn lemma_filtered_ccs_unique(customers: Seq<CustomerV>, pred: spec_fn(CustomerV) -> bool)
    requires
        ccs_unique(customers),
    ensures
        ccs_unique(customers.filter(pred)),
    decreases customers.len(),
{
    reveal(Seq::filter);
    if customers.len() > 0 {
        let d = customers.drop_last();
        assert(ccs_unique(d));
        lemma_filtered_ccs_unique(d, pred);
        lemma_filter_members(d, pred);
        if pred(customers.last()) {
            let f = customers.filter(pred);
            assert forall|i: int, j: int| 0 <= i < j < f.len() implies #[trigger] f[i].cc
                != #[trigger] f[j].cc by {
                if j < d.filter(pred).len() {
                    assert(d.filter(pred)[i].cc != d.filter(pred)[j].cc);
                } else {
                    assert(f[j] == customers.last());
                    let x = d.filter(pred)[i];
                    let w = choose|w: int| 0 <= w < d.len() && d[w] == x;
                    assert(customers[w] == x);
                    assert(customers[w].cc != customers[customers.len() - 1].cc);
                }
            }
        }
    }
}

/// A batched product fetch keyed by a SKU set resolves exactly the SKUs in
/// that set that the full store resolves, to the same products.
pub proof fn lemma_sku_lookup_filtered(
    products: Seq<ProductV>,
    skus: Seq<Seq<char>>,
    sku: Seq<char>,
)
    requires
        skus_unique(products),
        skus.contains(sku),
    ensures
        has_sku(products.filter(|p: ProductV| skus.contains(p.sku)), sku) <==> has_sku(
            products,
            sku,
        ),
        has_sku(products, sku) ==> sku_lookup(
            products.filter(|p: ProductV| skus.contains(p.sku)),
            sku,
        ) == sku_lookup(products, sku),
{
    let pred = |p: ProductV| skus.contains(p.sku);
    let f = products.filter(pred);
    lemma_filter_members(products, pred);
    if has_sku(products, sku) {
        let i = choose|i: int| 0 <= i < products.len() && #[trigger] products[i].sku == sku;
        assert(pred(products[i]));
        products.lemma_filter_contains(pred, i);
        let k = choose|k: int| 0 <= k < f.len() && f[k] == products[i];
        assert(f[k].sku == sku);
        assert(has_sku(f, sku));
        // Both lookups land on the unique product with this SKU.
        let a = choose|a: int| 0 <= a < f.len() && #[trigger] f[a].sku == sku;
        let w = choose|w: int| 0 <= w < products.len() && products[w] == f[a];
        lemma_sku_lookup_unique(products, w);
        lemma_sku_lookup_unique(products, i);
    }
    if has_sku(f, sku) {
        let a = choose|a: int| 0 <= a < f.len() && #[trigger] f[a].sku == sku;
        let w = choose|w: int| 0 <= w < products.len() && products[w] == f[a];
        assert(products[w].sku == sku);
        assert(has_sku(products, sku));
    }
}

/// A batched customer fetch keyed by a tax-id set resolves exactly the tax
/// ids in that set that the full store resolves, to the same customers.
pub proof fn lemma_cc_lookup_filtered(
    customers: Seq<CustomerV>,
    ccs: Seq<Seq<char>>,
    cc: Seq<char>,
)
    requires
        ccs_unique(customers),
        ccs.contains(cc),
    ensures
        has_cc(customers.filter(|c: CustomerV| ccs.contains(c.cc)), cc) <==> has_cc(customers, cc),
        has_cc(customers, cc) ==> cc_lookup(
            customers.filter(|c: CustomerV| ccs.contains(c.cc)),
            cc,
        ) == cc_lookup(customers, cc),
{
    let pred = |c: CustomerV| ccs.contains(c.cc);
    let f = customers.filter(pred);
    lemma_filter_members(customers, pred);
    if has_cc(customers, cc) {
        let i = choose|i: int| 0 <= i < customers.len() && #[trigger] customers[i].cc == cc;
        assert(pred(customers[i]));
        customers.lemma_filter_contains(pred, i);
        let k = choose|k: int| 0 <= k < f.len() && f[k] == customers[i];
        assert(f[k].cc == cc);
        assert(has_cc(f, cc));
        let a = choose|a: int| 0 <= a < f.len() && #[trigger] f[a].cc == cc;
        let w = choose|w: int| 0 <= w < customers.len() && customers[w] == f[a];
        lemma_cc_lookup_unique(customers, w);
        lemma_cc_lookup_unique(customers, i);
    }
    if has_cc(f, cc) {
        let a = choose|a: int| 0 <= a < f.len() && #[trigger] f[a].cc == cc;
        let w = choose|w: int| 0 <= w < customers.len() && customers[w] == f[a];
        assert(customers[w].cc == cc);
        assert(has_cc(customers, cc));
    }
}

/// Resolving line items against a batched fetch that covers every row's
/// SKU gives the same result as resolving against the full store.
pub proof fn lemma_assemble_lines_filtered(
    sale_id: u32,
    rows: Seq<RowV>,
    products: Seq<ProductV>,
    skus: Seq<Seq<char>>,
)
    requires
        skus_unique(products),
        forall|j: int| 0 <= j < rows.len() ==> skus.contains(#[trigger] rows[j].product_sku),
    ensures
        assemble_lines(sale_id, rows, products.filter(|p: ProductV| skus.contains(p.sku)))
            == assemble_lines(sale_id, rows, products),
    decreases rows.len(),
{
    if rows.len() > 0 {
        lemma_assemble_lines_filtered(sale_id, rows.drop_last(), products, skus);
        lemma_sku_lookup_filtered(products, skus, rows.last().product_sku);
    }
}

} // verus!
