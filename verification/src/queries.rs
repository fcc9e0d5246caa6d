//! The read-side use cases: single and paginated retrieval of customers,
//! products and sales, the CSV sales report, and login.
//!
//! List queries take the caller's pagination as given, except that a
//! 0-based page or an empty page size — whose behaviour storage would
//! otherwise define — is rejected as a validation failure. Each list
//! handler converts its page's rows to transfer records with a verified
//! element-wise map, carrying the envelope's counters over unchanged; this
//! per-type map stands in for a generic envelope converter, which would
//! need a conversion trait bound that nothing here can reason through.

use vstd::prelude::*;
use crate::dispatch::{Input, InputHandler, Store};
use crate::dtos::{
    CustomerDTO, CustomerDTOV, ProductDTO, ProductDTOV, SaleDTO, SaleDTOV, customer_dto_of,
    product_dto_of, sale_dto_of,
};
use crate::entities::{CustomerV, LineV, ProductV, SaleV, lines_view};
use crate::error::SharedError;
use crate::pagination::{Pagination, PaginationResult, page_of, page_start};
use crate::sales::{assemble_sale, assemble_sales, lemma_assembled_times_bounded};
use crate::services::CredentialsValidator;
use crate::store::{cc_lookup, has_cc, has_sku, sku_lookup, lemma_cc_lookup_unique,
    lemma_sku_lookup_unique};
use crate::textfmt::{dec_str, format_money, format_rfc3339, money_str, rfc3339_of, u64_to_decimal};
use crate::value_objects::{CC, cc_valid, ValueObject};

verus! {

pub struct GetCustomerByCcQuery {
    pub cc: String,
}

impl Input for GetCustomerByCcQuery {
    type Output = CustomerDTO;
}

/// What fetching a customer by tax id returns: the stored customer's data
/// for a valid, known tax id; a validation failure or not-found otherwise.
/// The stores are never changed.
pub open spec fn get_customer_by_cc_post(
    pre: Store,
    post: Store,
    input: GetCustomerByCcQuery,
    r: Result<CustomerDTO, SharedError>,
) -> bool {
    &&& post == pre
    &&& (r is Ok <==> cc_valid(input.cc@) && has_cc(pre.customers@, input.cc@))
    &&& r is Ok ==> r->Ok_0@ == customer_dto_of(cc_lookup(pre.customers@, input.cc@))
    &&& !cc_valid(input.cc@) ==> r is Err && r->Err_0.code == 400 && r->Err_0.message@
        == "CC must be at least 5 characters long"@
    &&& cc_valid(input.cc@) && !has_cc(pre.customers@, input.cc@) ==> r is Err && r->Err_0.code
        == 404 && r->Err_0.message@ == "Customer not found"@
}

pub struct GetCustomerByCcQueryHandler;

impl InputHandler<GetCustomerByCcQuery> for GetCustomerByCcQueryHandler {
    fn handle(&self, store: &mut Store, input: &GetCustomerByCcQuery) -> (r: Result<
        CustomerDTO,
        SharedError,
    >)
        ensures
            get_customer_by_cc_post(*old(store), *final(store), *input, r),
    {
        let cc = match CC::new(input.cc.clone()) {
            Ok(c) => c,
            Err(e) => {
                return Err(e);
            },
        };
        match store.customers.get_by_cc(&cc) {
            Some(customer) => {
                proof {
                    let wi = choose|i: int|
                        0 <= i < store.customers@.len() && #[trigger] store.customers@[i].cc == cc@
                            && customer@ == store.customers@[i];
                    lemma_cc_lookup_unique(store.customers@, wi);
                }
                Ok(CustomerDTO::from(&customer))
            },
            None => Err(SharedError::new("Customer not found", 404)),
        }
    }
}

pub struct GetCustomersQuery {
    pub pagination: Pagination,
}

#[derive(Debug)]
pub struct GetCustomersOutput {
    pub pagination_result: PaginationResult<CustomerDTO>,
}

impl Input for GetCustomersQuery {
    type Output = GetCustomersOutput;
}

/// The views of a vector of customer transfer records.
pub open spec fn customer_dto_views(s: Seq<CustomerDTO>) -> Seq<CustomerDTOV> {
    s.map(|i: int, d: CustomerDTO| d@)
}

/// What listing customers returns: for valid pagination, the requested
/// window of the stored customers, newest first, as transfer records, with
/// the full row count; rejected pagination is a validation failure.
pub open spec fn get_customers_post(
    pre: Store,
    post: Store,
    input: GetCustomersQuery,
    r: Result<GetCustomersOutput, SharedError>,
) -> bool {
    &&& post == pre
    &&& (r is Ok <==> input.pagination.wf())
    &&& r is Ok ==> {
        let out = r->Ok_0.pagination_result;
        &&& customer_dto_views(out.items@) =~= page_of(
            pre.customers@.reverse(),
            input.pagination.page as int,
            input.pagination.per_page as int,
        ).map(|i: int, c: CustomerV| customer_dto_of(c))
        &&& out.items_count == out.items@.len()
        &&& out.total_items == pre.customers@.len()
        &&& out.current_page == input.pagination.page
        &&& out.per_page == input.pagination.per_page
    }
    &&& r is Err ==> r->Err_0.code == 400 && r->Err_0.message@ == "Invalid pagination"@
}

pub struct GetCustomersQueryHandler;

impl InputHandler<GetCustomersQuery> for GetCustomersQueryHandler {
    #[verifier::loop_isolation(false)]
    fn handle(&self, store: &mut Store, input: &GetCustomersQuery) -> (r: Result<
        GetCustomersOutput,
        SharedError,
    >)
        ensures
            get_customers_post(*old(store), *final(store), *input, r),
    {
        if input.pagination.page < 1 || input.pagination.per_page < 1 {
            return Err(SharedError::new("Invalid pagination", 400));
        }
        let page = store.customers.get_paginated(&input.pagination);
        let ghost window = page_of(
            store.customers@.reverse(),
            input.pagination.page as int,
            input.pagination.per_page as int,
        );
        let n = page.items.len();
        let mut dtos: Vec<CustomerDTO> = Vec::new();
        let mut i: usize = 0;
        while i < n
            invariant
                i <= n,
                dtos@.len() == i,
                forall|k: int|
                    0 <= k < i ==> customer_dto_views(dtos@)[k] == customer_dto_of(
                        #[trigger] window[k],
                    ),
            decreases n - i,
        {
            assert(page.items@[i as int]@ == window[i as int]);
            dtos.push(CustomerDTO::from(&page.items[i]));
            i += 1;
        }
        let pagination_result = PaginationResult {
            items: dtos,
            items_count: page.items_count,
            total_items: page.total_items,
            current_page: page.current_page,
            per_page: page.per_page,
        };
        assert(customer_dto_views(pagination_result.items@) =~= window.map(
            |i: int, c: CustomerV| customer_dto_of(c),
        ));
        Ok(GetCustomersOutput { pagination_result })
    }
}

pub struct GetProductBySkuQuery {
    pub sku: String,
}

impl Input for GetProductBySkuQuery {
    type Output = ProductDTO;
}

/// What fetching a product by SKU returns: the stored product's data for a
/// known SKU, not-found otherwise. The stores are never changed.
pub open spec fn get_product_by_sku_post(
    pre: Store,
    post: Store,
    input: GetProductBySkuQuery,
    r: Result<ProductDTO, SharedError>,
) -> bool {
    &&& post == pre
    &&& (r is Ok <==> has_sku(pre.products@, input.sku@))
    &&& r is Ok ==> r->Ok_0@ == product_dto_of(sku_lookup(pre.products@, input.sku@))
    &&& r is Err ==> r->Err_0.code == 404 && r->Err_0.message@ == "Product not found"@
}

pub struct GetProductsBySkuQueryHandler;

impl InputHandler<GetProductBySkuQuery> for GetProductsBySkuQueryHandler {
    fn handle(&self, store: &mut Store, input: &GetProductBySkuQuery) -> (r: Result<
        ProductDTO,
        SharedError,
    >)
        ensures
            get_product_by_sku_post(*old(store), *final(store), *input, r),
    {
        match store.products.get_by_sku(input.sku.as_str()) {
            Some(product) => {
                proof {
                    let wi = choose|i: int|
                        0 <= i < store.products@.len() && #[trigger] store.products@[i].sku
                            == input.sku@ && product@ == store.products@[i];
                    lemma_sku_lookup_unique(store.products@, wi);
                }
                Ok(ProductDTO::from(&product))
            },
            None => Err(SharedError::new("Product not found", 404)),
        }
    }
}

pub struct GetProductsQuery {
    pub pagination: Pagination,
}

#[derive(Debug)]
pub struct GetProductsOutput {
    pub pagination_result: PaginationResult<ProductDTO>,
}

impl Input for GetProductsQuery {
    type Output = GetProductsOutput;
}

/// The views of a vector of product transfer records.
pub open spec fn product_dto_views(s: Seq<ProductDTO>) -> Seq<ProductDTOV> {
    s.map(|i: int, d: ProductDTO| d@)
}

/// What listing products returns: for valid pagination, the requested
/// window of the stored products in store order, as transfer records, with
/// the full row count; rejected pagination is a validation failure.
pub open spec fn get_products_post(
    pre: Store,
    post: Store,
    input: GetProductsQuery,
    r: Result<GetProductsOutput, SharedError>,
) -> bool {
    &&& post == pre
    &&& (r is Ok <==> input.pagination.wf())
    &&& r is Ok ==> {
        let out = r->Ok_0.pagination_result;
        &&& product_dto_views(out.items@) =~= page_of(
            pre.products@,
            input.pagination.page as int,
            input.pagination.per_page as int,
        ).map(|i: int, p: ProductV| product_dto_of(p))
        &&& out.items_count == out.items@.len()
        &&& out.total_items == pre.products@.len()
        &&& out.current_page == input.pagination.page
        &&& out.per_page == input.pagination.per_page
    }
    &&& r is Err ==> r->Err_0.code == 400 && r->Err_0.message@ == "Invalid pagination"@
}

pub struct GetProductsQueryHandler;

impl InputHandler<GetProductsQuery> for GetProductsQueryHandler {
    #[verifier::loop_isolation(false)]
    fn handle(&self, store: &mut Store, input: &GetProductsQuery) -> (r: Result<
        GetProductsOutput,
        SharedError,
    >)
        ensures
            get_products_post(*old(store), *final(store), *input, r),
    {
        if input.pagination.page < 1 || input.pagination.per_page < 1 {
            return Err(SharedError::new("Invalid pagination", 400));
        }
        let page = store.products.get_paginated(&input.pagination);
        let ghost window = page_of(
            store.products@,
            input.pagination.page as int,
            input.pagination.per_page as int,
        );
        let n = page.items.len();
        let mut dtos: Vec<ProductDTO> = Vec::new();
        let mut i: usize = 0;
        while i < n
            invariant
                i <= n,
                dtos@.len() == i,
                forall|k: int|
                    0 <= k < i ==> product_dto_views(dtos@)[k] == product_dto_of(
                        #[trigger] window[k],
                    ),
            decreases n - i,
        {
            assert(page.items@[i as int]@ == window[i as int]);
            dtos.push(ProductDTO::from(&page.items[i]));
            i += 1;
        }
        let pagination_result = PaginationResult {
            items: dtos,
            items_count: page.items_count,
            total_items: page.total_items,
            current_page: page.current_page,
            per_page: page.per_page,
        };
        assert(product_dto_views(pagination_result.items@) =~= window.map(
            |i: int, p: ProductV| product_dto_of(p),
        ));
        Ok(GetProductsOutput { pagination_result })
    }
}

pub struct GetSaleByIdQuery {
    pub sale_id: u32,
}

impl Input for GetSaleByIdQuery {
    type Output = SaleDTO;
}

/// What fetching a sale by id returns: the sale reconstructed by joining
/// its header, its customer and its junction rows, as a transfer record;
/// not-found when the header or its customer is absent; an internal failure
/// when the derived total is not representable.
pub open spec fn get_sale_by_id_post(
    pre: Store,
    post: Store,
    input: GetSaleByIdQuery,
    r: Result<SaleDTO, SharedError>,
) -> bool {
    let headers = pre.sales.headers_view();
    let found = 1 <= input.sale_id <= headers.len() && has_cc(
        pre.customers@,
        headers[input.sale_id - 1].customer_cc,
    );
    let assembled = assemble_sale(
        headers[input.sale_id - 1],
        pre.customers@,
        pre.sales.rows_view(),
        pre.products@,
    )->0;
    &&& post == pre
    &&& (r is Ok <==> found && assembled.total() <= u64::MAX)
    &&& r is Ok ==> r->Ok_0@ == sale_dto_of(assembled)
    &&& !found ==> r is Err && r->Err_0.code == 404 && r->Err_0.message@ == "Sale not found"@
    &&& found && assembled.total() > u64::MAX ==> r is Err && r->Err_0.code == 500
        && r->Err_0.message@ == "Sale total exceeds the representable amount"@
}

pub struct GetSaleByIdQueryHandler;

impl InputHandler<GetSaleByIdQuery> for GetSaleByIdQueryHandler {
    fn handle(&self, store: &mut Store, input: &GetSaleByIdQuery) -> (r: Result<
        SaleDTO,
        SharedError,
    >)
        ensures
            get_sale_by_id_post(*old(store), *final(store), *input, r),
    {
        let sale = match store.sales.get_by_id(&input.sale_id, &store.customers, &store.products) {
            Some(s) => s,
            None => {
                return Err(SharedError::new("Sale not found", 404));
            },
        };
        match SaleDTO::from_sale(&sale) {
            Some(dto) => Ok(dto),
            None => Err(SharedError::new("Sale total exceeds the representable amount", 500)),
        }
    }
}

pub struct GetSalesQuery {
    pub pagination: Pagination,
}

#[derive(Debug)]
pub struct GetSalesOutput {
    pub pagination_result: PaginationResult<SaleDTO>,
}

impl Input for GetSalesQuery {
    type Output = GetSalesOutput;
}

/// The views of a vector of sale transfer records.
pub open spec fn sale_dto_views(s: Seq<SaleDTO>) -> Seq<SaleDTOV> {
    s.map(|i: int, d: SaleDTO| d@)
}

/// What listing sales returns: for valid pagination, the requested window
/// of the sale headers, newest first, each reconstructed by the join and
/// carried as a transfer record. `total_items` is the raw header count,
/// independent of join-time skips. A sale whose derived total is not
/// representable fails the query as an internal failure.
pub open spec fn get_sales_post(
    pre: Store,
    post: Store,
    input: GetSalesQuery,
    r: Result<GetSalesOutput, SharedError>,
) -> bool {
    let window = page_of(
        pre.sales.headers_view().reverse(),
        input.pagination.page as int,
        input.pagination.per_page as int,
    );
    let assembled = assemble_sales(window, pre.customers@, pre.sales.rows_view(), pre.products@);
    &&& post == pre
    &&& (r is Ok <==> input.pagination.wf() && (forall|k: int|
        0 <= k < assembled.len() ==> #[trigger] assembled[k].total() <= u64::MAX))
    &&& r is Ok ==> {
        let out = r->Ok_0.pagination_result;
        &&& sale_dto_views(out.items@) =~= assembled.map(|i: int, s: SaleV| sale_dto_of(s))
        &&& out.items_count == out.items@.len()
        &&& out.total_items == pre.sales.headers_view().len()
        &&& out.current_page == input.pagination.page
        &&& out.per_page == input.pagination.per_page
    }
    &&& !input.pagination.wf() ==> r is Err && r->Err_0.code == 400 && r->Err_0.message@
        == "Invalid pagination"@
    &&& input.pagination.wf() && !(forall|k: int|
        0 <= k < assembled.len() ==> #[trigger] assembled[k].total() <= u64::MAX) ==> r is Err
        && r->Err_0.code == 500 && r->Err_0.message@
        == "Sale total exceeds the representable amount"@
}

pub struct GetSalesQueryHandler;

impl InputHandler<GetSalesQuery> for GetSalesQueryHandler {
    #[verifier::loop_isolation(false)]
    fn handle(&self, store: &mut Store, input: &GetSalesQuery) -> (r: Result<
        GetSalesOutput,
        SharedError,
    >)
        ensures
            get_sales_post(*old(store), *final(store), *input, r),
    {
        if input.pagination.page < 1 || input.pagination.per_page < 1 {
            return Err(SharedError::new("Invalid pagination", 400));
        }
        let page = store.sales.get_paginated(&input.pagination, &store.customers, &store.products);
        let ghost window = page_of(
            store.sales.headers_view().reverse(),
            input.pagination.page as int,
            input.pagination.per_page as int,
        );
        let ghost assembled = assemble_sales(
            window,
            store.customers@,
            store.sales.rows_view(),
            store.products@,
        );
        proof {
            let headers = store.sales.headers_view();
            assert forall|j: int| 0 <= j < window.len() implies #[trigger] window[j].generated_at
                <= crate::textfmt::MAX_TIMESTAMP by {
                assert(window[j] == headers.reverse()[page_start(
                    headers.reverse().len() as int,
                    input.pagination.page as int,
                    input.pagination.per_page as int,
                ) + j]);
            }
            lemma_assembled_times_bounded(
                window,
                store.customers@,
                store.sales.rows_view(),
                store.products@,
                crate::textfmt::MAX_TIMESTAMP,
            );
        }
        let n = page.items.len();
        let mut dtos: Vec<SaleDTO> = Vec::new();
        let mut i: usize = 0;
        while i < n
            invariant
                i <= n,
                dtos@.len() == i,
                forall|k: int| 0 <= k < i ==> #[trigger] assembled[k].total() <= u64::MAX,
                forall|k: int|
                    0 <= k < i ==> sale_dto_views(dtos@)[k] == sale_dto_of(#[trigger] assembled[k]),
            decreases n - i,
        {
            assert(page.items@[i as int]@ == assembled[i as int]);
            match SaleDTO::from_sale(&page.items[i]) {
                Some(dto) => {
                    dtos.push(dto);
                },
                None => {
                    return Err(
                        SharedError::new("Sale total exceeds the representable amount", 500),
                    );
                },
            }
            i += 1;
        }
        let pagination_result = PaginationResult {
            items: dtos,
            items_count: page.items_count,
            total_items: page.total_items,
            current_page: page.current_page,
            per_page: page.per_page,
        };
        assert(sale_dto_views(pagination_result.items@) =~= assembled.map(
            |i: int, s: SaleV| sale_dto_of(s),
        ));
        Ok(GetSalesOutput { pagination_result })
    }
}

pub struct GenerateCsvReportQuery;

#[derive(Debug)]
pub struct GenerateCsvReportOutput {
    pub csv_data: String,
}

impl Input for GenerateCsvReportQuery {
    type Output = GenerateCsvReportOutput;
}

/// One line item rendered as `sku:quantity`.
pub open spec fn line_cell(l: LineV) -> Seq<char> {
    l.product.sku + ":"@ + dec_str(l.quantity as nat)
}

/// A sale's line items rendered as `sku:qty&sku:qty`.
pub open spec fn products_cell(lines: Seq<LineV>) -> Seq<char>
    decreases lines.len(),
{
    if lines.len() == 0 {
        Seq::empty()
    } else if lines.len() == 1 {
        line_cell(lines[0])
    } else {
        products_cell(lines.drop_last()) + "&"@ + line_cell(lines.last())
    }
}

/// One report line for one reconstructed sale.
pub open spec fn csv_line(s: SaleV) -> Seq<char> {
    dec_str(s.id as nat) + ","@ + rfc3339_of(s.generated_at as int) + ","@ + s.customer.cc + ","@
        + products_cell(s.lines) + ","@ + money_str(s.total() as u64) + "\n"@
}

/// The report body: one line per reconstructed sale, in order.
pub open spec fn csv_body(sales: Seq<SaleV>) -> Seq<char>
    decreases sales.len(),
{
    if sales.len() == 0 {
        Seq::empty()
    } else {
        csv_body(sales.drop_last()) + csv_line(sales.last())
    }
}

/// What the CSV report holds: the header line, then one line per
/// reconstructed sale — id, generation time, customer tax id, the
/// `sku:qty` list and the derived total. A sale whose derived total is not
/// representable fails the report as an internal failure.
pub open spec fn generate_csv_report_post(
    pre: Store,
    post: Store,
    r: Result<GenerateCsvReportOutput, SharedError>,
) -> bool {
    let assembled = assemble_sales(
        pre.sales.headers_view(),
        pre.customers@,
        pre.sales.rows_view(),
        pre.products@,
    );
    &&& post == pre
    &&& (r is Ok <==> forall|k: int|
        0 <= k < assembled.len() ==> #[trigger] assembled[k].total() <= u64::MAX)
    &&& r is Ok ==> r->Ok_0.csv_data@
        == "Sale ID, Generated At, Customer CC, Products(Product SKU:Quantity), Total Amount\n"@
        + csv_body(assembled)
    &&& r is Err ==> r->Err_0.code == 500 && r->Err_0.message@
        == "Sale total exceeds the representable amount"@
}

pub struct GenerateCsvReportQueryHandler;

impl InputHandler<GenerateCsvReportQuery> for GenerateCsvReportQueryHandler {
    #[verifier::loop_isolation(false)]
    fn handle(&self, store: &mut Store, input: &GenerateCsvReportQuery) -> (r: Result<
        GenerateCsvReportOutput,
        SharedError,
    >)
        ensures
            generate_csv_report_post(*old(store), *final(store), r),
    {
        let ghost assembled = assemble_sales(
            store.sales.headers_view(),
            store.customers@,
            store.sales.rows_view(),
            store.products@,
        );
        proof {
            lemma_assembled_times_bounded(
                store.sales.headers_view(),
                store.customers@,
                store.sales.rows_view(),
                store.products@,
                crate::textfmt::MAX_TIMESTAMP,
            );
        }
        let sales = store.sales.get_all(&store.customers, &store.products);
        let mut csv_data = String::new();
        csv_data.append(
            "Sale ID, Generated At, Customer CC, Products(Product SKU:Quantity), Total Amount\n",
        );
        let ghost header = csv_data@;
        let n = sales.len();
        let mut i: usize = 0;
        while i < n
            invariant
                i <= n,
                n == assembled.len(),
                forall|k: int| 0 <= k < i ==> #[trigger] assembled[k].total() <= u64::MAX,
                csv_data@ =~= header + csv_body(assembled.take(i as int)),
            decreases n - i,
        {
            let sale = &sales[i];
            assert(sale@ == assembled[i as int]);
            let total = match sale.total_amount_checked() {
                Some(t) => t,
                None => {
                    return Err(
                        SharedError::new("Sale total exceeds the representable amount", 500),
                    );
                },
            };
            let mut line = u64_to_decimal(sale.id() as u64);
            line.append(",");
            let ts = format_rfc3339(sale.generated_at());
            line.append(ts.as_str());
            line.append(",");
            line.append(sale.customer().cc().value().as_str());
            line.append(",");
            // The sku:qty list.
            let items = sale.products_sale();
            let m = items.len();
            let ghost cell_target = products_cell(assembled[i as int].lines);
            let mut cell = String::new();
            let mut j: usize = 0;
            while j < m
                invariant
                    j <= m,
                    m == assembled[i as int].lines.len(),
                    lines_view(items@) == assembled[i as int].lines,
                    cell@ =~= products_cell(assembled[i as int].lines.take(j as int)),
                decreases m - j,
            {
                assert(assembled[i as int].lines.take(j + 1).drop_last()
                    =~= assembled[i as int].lines.take(j as int));
                assert(assembled[i as int].lines.take(j + 1).last() == assembled[i as int].lines[
                    j as int
                ]);
                if j > 0 {
                    cell.append("&");
                }
                let pair = &items[j];
                cell.append(pair.0.sku().as_str());
                cell.append(":");
                let qty = u64_to_decimal(pair.1 as u64);
                cell.append(qty.as_str());
                proof {
                    reveal_strlit("&");
                    reveal_strlit(":");
                    if j == 0 {
                        assert(assembled[i as int].lines.take(1) =~= seq![
                            assembled[i as int].lines[0],
                        ]);
                    }
                }
                assert(cell@ =~= products_cell(assembled[i as int].lines.take(j + 1)));
                j += 1;
            }
            assert(assembled[i as int].lines.take(m as int) =~= assembled[i as int].lines);
            line.append(cell.as_str());
            line.append(",");
            let money = format_money(total);
            line.append(money.as_str());
            line.append("\n");
            csv_data.append(line.as_str());
            proof {
                reveal_strlit(",");
                reveal_strlit("\n");
                assert(assembled.take(i + 1).drop_last() =~= assembled.take(i as int));
                assert(assembled.take(i + 1).last() == assembled[i as int]);
            }
            assert(csv_data@ =~= header + csv_body(assembled.take(i + 1)));
            i += 1;
        }
        assert(assembled.take(n as int) =~= assembled);
        Ok(GenerateCsvReportOutput { csv_data })
    }
}

pub struct LoginQuery {
    pub user: String,
    pub pass: String,
}

#[derive(Debug)]
pub struct LoginOutput {
    pub key: String,
}

impl Input for LoginQuery {
    type Output = LoginOutput;
}

/// What login returns: the configured key for the configured credentials,
/// a refusal for anything else. The stores are never changed.
pub open spec fn login_post(
    pre: Store,
    post: Store,
    input: LoginQuery,
    r: Result<LoginOutput, SharedError>,
) -> bool {
    &&& post == pre
    &&& (r is Ok <==> pre.credentials.config.user@ == input.user@ && pre.credentials.config.pass@
        == input.pass@)
    &&& r is Ok ==> r->Ok_0.key@ == pre.credentials.config.key@
    &&& r is Err ==> r->Err_0.code == 401 && r->Err_0.message@ == "INVALID CREDENTIALS"@
}

pub struct LoginQueryHandler;

impl InputHandler<LoginQuery> for LoginQueryHandler {
    fn handle(&self, store: &mut Store, input: &LoginQuery) -> (r: Result<LoginOutput, SharedError>)
        ensures
            login_post(*old(store), *final(store), *input, r),
    {
        match store.credentials.validate(&input.user, &input.pass) {
            Ok(key) => Ok(LoginOutput { key }),
            Err(e) => Err(e),
        }
    }
}

} // verus!
