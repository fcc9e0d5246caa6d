//! The dispatch core: a request type declares its own result type, exactly
//! one handler exists per request type, and callers only ever go through
//! `send`. Dispatch is a type-level binding — an unhandled request type is
//! a build-time failure, not a runtime error.
//!
//! The stores and services every workflow touches live in one explicit,
//! constructed-once container that the mediator owns and hands to each
//! handler, in place of any process-wide wiring. The container also carries
//! the current time, supplied by the caller: the library has no clock.

use vstd::prelude::*;
use crate::commands::{
    EditCustomerCommand, EditCustomerCommandHandler, EditProductCommand, EditProductCommandHandler,
    RegisterCustomerCommand, RegisterCustomerCommandHandler, RegisterCustomerOutput,
    RegisterProductCommand, RegisterProductCommandHandler, RegisterProductOutput,
    RegisterSaleCommand, RegisterSaleCommandHandler, RegisterSaleOutput, edit_customer_post,
    edit_product_post, register_customer_post, register_product_post, register_sale_post,
};
use crate::error::SharedError;
use crate::queries::{
    GenerateCsvReportOutput, GenerateCsvReportQuery, GenerateCsvReportQueryHandler,
    GetCustomerByCcQuery, GetCustomerByCcQueryHandler, GetCustomersOutput, GetCustomersQuery,
    GetCustomersQueryHandler, GetProductBySkuQuery, GetProductsBySkuQueryHandler,
    GetProductsOutput, GetProductsQuery, GetProductsQueryHandler, GetSaleByIdQuery,
    GetSaleByIdQueryHandler, GetSalesOutput, GetSalesQuery, GetSalesQueryHandler, LoginOutput,
    LoginQuery, LoginQueryHandler, generate_csv_report_post, get_customer_by_cc_post,
    get_customers_post, get_product_by_sku_post, get_products_post, get_sale_by_id_post,
    get_sales_post, login_post,
};
use crate::dtos::{CustomerDTO, ProductDTO, SaleDTO};
use crate::sales::SaleStore;
use crate::services::CredentialsValidatorOneUser;
use crate::store::{CustomerStore, ProductStore};
use crate::textfmt::MAX_TIMESTAMP;

verus! {

/// Every store and service the use cases depend on.
pub struct Store {
    pub customers: CustomerStore,
    pub products: ProductStore,
    pub sales: SaleStore,
    pub credentials: CredentialsValidatorOneUser,
    pub now: u64,
}

impl Store {
    /// The stores are well formed and the clock dominates every stored
    /// creation and generation time, so stamping new rows with it keeps
    /// them in time order.
    pub open spec fn wf(self) -> bool {
        &&& self.customers.wf()
        &&& self.products.wf()
        &&& self.sales.wf()
        &&& self.now <= MAX_TIMESTAMP
        &&& forall|i: int|
            0 <= i < self.customers@.len() ==> #[trigger] self.customers@[i].created_at <= self.now
        &&& forall|i: int|
            0 <= i < self.sales.headers_view().len()
                ==> #[trigger] self.sales.headers_view()[i].generated_at <= self.now
    }

    /// An empty container at time zero.
    pub fn new(credentials: CredentialsValidatorOneUser) -> (r: Store)
        ensures
            r.wf(),
            r.customers@ =~= Seq::<crate::entities::CustomerV>::empty(),
            r.products@ =~= Seq::<crate::entities::ProductV>::empty(),
            r.sales.headers_view() =~= Seq::<crate::sales::HeaderV>::empty(),
            r.sales.rows_view() =~= Seq::<crate::sales::RowV>::empty(),
            r.now == 0,
            r.credentials == credentials,
    {
        Store {
            customers: CustomerStore::new(),
            products: ProductStore::new(),
            sales: SaleStore::new(),
            credentials,
            now: 0,
        }
    }

    /// Advances the clock that timestamps subsequent writes. The clock is
    /// monotone: it never moves backwards.
    pub fn set_now(&mut self, now: u64)
        requires
            now <= MAX_TIMESTAMP,
            now >= old(self).now,
        ensures
            *final(self) == (Store { now, ..*old(self) }),
            old(self).wf() ==> final(self).wf(),
    {
        self.now = now;
    }
}

/// A request type, declaring the type of its result.
pub trait Input {
    type Output;
}

/// The handler of request type `T`.
pub trait InputHandler<T: Input> {
    fn handle(&self, store: &mut Store, input: &T) -> (r: Result<T::Output, SharedError>)
        requires
            old(store).wf(),
        ensures
            final(store).wf(),
    ;
}

/// A dispatcher for request type `I`: callers hand in the request and get
/// its declared result, never seeing the stores or the handler.
pub trait Sender<I: Input> {
    spec fn sender_wf(&self) -> bool;

    fn send(&mut self, input: I) -> (r: Result<I::Output, SharedError>)
        requires
            old(self).sender_wf(),
        ensures
            final(self).sender_wf(),
    ;
}

/// Type-indexed resolution of an instance of `T`.
pub trait Resolver<T> {
    fn resolve(&self) -> T;
}

/// The constructed-once dependency container's companion: resolves the
/// handler for each request type.
pub struct DependenciesResolver;

/// The mediator: owns the container and dispatches every request type to
/// its handler.
pub struct Mediator {
    pub store: Store,
}

impl Mediator {
    pub fn new(store: Store) -> (r: Mediator)
        ensures
            r.store == store,
    {
        Mediator { store }
    }

    /// Advances the clock that timestamps subsequent writes. The clock is
    /// monotone: it never moves backwards.
    pub fn set_now(&mut self, now: u64)
        requires
            now <= MAX_TIMESTAMP,
            now >= old(self).store.now,
        ensures
            final(self).store == (Store { now, ..old(self).store }),
            old(self).store.wf() ==> final(self).store.wf(),
    {
        self.store.set_now(now);
    }
}

impl Resolver<RegisterCustomerCommandHandler> for DependenciesResolver {
    fn resolve(&self) -> RegisterCustomerCommandHandler {
        RegisterCustomerCommandHandler
    }
}

impl Resolver<EditCustomerCommandHandler> for DependenciesResolver {
    fn resolve(&self) -> EditCustomerCommandHandler {
        EditCustomerCommandHandler
    }
}

impl Resolver<RegisterProductCommandHandler> for DependenciesResolver {
    fn resolve(&self) -> RegisterProductCommandHandler {
        RegisterProductCommandHandler
    }
}

impl Resolver<EditProductCommandHandler> for DependenciesResolver {
    fn resolve(&self) -> EditProductCommandHandler {
        EditProductCommandHandler
    }
}

impl Resolver<RegisterSaleCommandHandler> for DependenciesResolver {
    fn resolve(&self) -> RegisterSaleCommandHandler {
        RegisterSaleCommandHandler
    }
}

impl Resolver<GetCustomerByCcQueryHandler> for DependenciesResolver {
    fn resolve(&self) -> GetCustomerByCcQueryHandler {
        GetCustomerByCcQueryHandler
    }
}

impl Resolver<GetCustomersQueryHandler> for DependenciesResolver {
    fn resolve(&self) -> GetCustomersQueryHandler {
        GetCustomersQueryHandler
    }
}

impl Resolver<GetProductsBySkuQueryHandler> for DependenciesResolver {
    fn resolve(&self) -> GetProductsBySkuQueryHandler {
        GetProductsBySkuQueryHandler
    }
}

impl Resolver<GetProductsQueryHandler> for DependenciesResolver {
    fn resolve(&self) -> GetProductsQueryHandler {
        GetProductsQueryHandler
    }
}

impl Resolver<GetSaleByIdQueryHandler> for DependenciesResolver {
    fn resolve(&self) -> GetSaleByIdQueryHandler {
        GetSaleByIdQueryHandler
    }
}

impl Resolver<GetSalesQueryHandler> for DependenciesResolver {
    fn resolve(&self) -> GetSalesQueryHandler {
        GetSalesQueryHandler
    }
}

impl Resolver<GenerateCsvReportQueryHandler> for DependenciesResolver {
    fn resolve(&self) -> GenerateCsvReportQueryHandler {
        GenerateCsvReportQueryHandler
    }
}

impl Resolver<LoginQueryHandler> for DependenciesResolver {
    fn resolve(&self) -> LoginQueryHandler {
        LoginQueryHandler
    }
}

impl Sender<RegisterCustomerCommand> for Mediator {
    open spec fn sender_wf(&self) -> bool {
        self.store.wf()
    }

    fn send(&mut self, input: RegisterCustomerCommand) -> (r: Result<
        RegisterCustomerOutput,
        SharedError,
    >)
        ensures
            register_customer_post(old(self).store, final(self).store, input, r),
    {
        let handler: RegisterCustomerCommandHandler = DependenciesResolver.resolve();
        handler.handle(&mut self.store, &input)
    }
}

impl Sender<EditCustomerCommand> for Mediator {
    open spec fn sender_wf(&self) -> bool {
        self.store.wf()
    }

    fn send(&mut self, input: EditCustomerCommand) -> (r: Result<(), SharedError>)
        ensures
            edit_customer_post(old(self).store, final(self).store, input, r),
    {
        let handler: EditCustomerCommandHandler = DependenciesResolver.resolve();
        handler.handle(&mut self.store, &input)
    }
}

impl Sender<RegisterProductCommand> for Mediator {
    open spec fn sender_wf(&self) -> bool {
        self.store.wf()
    }

    fn send(&mut self, input: RegisterProductCommand) -> (r: Result<
        RegisterProductOutput,
        SharedError,
    >)
        ensures
            register_product_post(old(self).store, final(self).store, input, r),
    {
        let handler: RegisterProductCommandHandler = DependenciesResolver.resolve();
        handler.handle(&mut self.store, &input)
    }
}

impl Sender<EditProductCommand> for Mediator {
    open spec fn sender_wf(&self) -> bool {
        self.store.wf()
    }

    fn send(&mut self, input: EditProductCommand) -> (r: Result<(), SharedError>)
        ensures
            edit_product_post(old(self).store, final(self).store, input, r),
    {
        let handler: EditProductCommandHandler = DependenciesResolver.resolve();
        handler.handle(&mut self.store, &input)
    }
}

impl Sender<RegisterSaleCommand> for Mediator {
    open spec fn sender_wf(&self) -> bool {
        self.store.wf()
    }

    fn send(&mut self, input: RegisterSaleCommand) -> (r: Result<RegisterSaleOutput, SharedError>)
        ensures
            register_sale_post(old(self).store, final(self).store, input, r),
    {
        let handler: RegisterSaleCommandHandler = DependenciesResolver.resolve();
        handler.handle(&mut self.store, &input)
    }
}

impl Sender<GetCustomerByCcQuery> for Mediator {
    open spec fn sender_wf(&self) -> bool {
        self.store.wf()
    }

    fn send(&mut self, input: GetCustomerByCcQuery) -> (r: Result<CustomerDTO, SharedError>)
        ensures
            get_customer_by_cc_post(old(self).store, final(self).store, input, r),
    {
        let handler: GetCustomerByCcQueryHandler = DependenciesResolver.resolve();
        handler.handle(&mut self.store, &input)
    }
}

impl Sender<GetCustomersQuery> for Mediator {
    open spec fn sender_wf(&self) -> bool {
        self.store.wf()
    }

    fn send(&mut self, input: GetCustomersQuery) -> (r: Result<GetCustomersOutput, SharedError>)
        ensures
            get_customers_post(old(self).store, final(self).store, input, r),
    {
        let handler: GetCustomersQueryHandler = DependenciesResolver.resolve();
        handler.handle(&mut self.store, &input)
    }
}

impl Sender<GetProductBySkuQuery> for Mediator {
    open spec fn sender_wf(&self) -> bool {
        self.store.wf()
    }

    fn send(&mut self, input: GetProductBySkuQuery) -> (r: Result<ProductDTO, SharedError>)
        ensures
            get_product_by_sku_post(old(self).store, final(self).store, input, r),
    {
        let handler: GetProductsBySkuQueryHandler = DependenciesResolver.resolve();
        handler.handle(&mut self.store, &input)
    }
}

impl Sender<GetProductsQuery> for Mediator {
    open spec fn sender_wf(&self) -> bool {
        self.store.wf()
    }

    fn send(&mut self, input: GetProductsQuery) -> (r: Result<GetProductsOutput, SharedError>)
        ensures
            get_products_post(old(self).store, final(self).store, input, r),
    {
        let handler: GetProductsQueryHandler = DependenciesResolver.resolve();
        handler.handle(&mut self.store, &input)
    }
}

impl Sender<GetSaleByIdQuery> for Mediator {
    open spec fn sender_wf(&self) -> bool {
        self.store.wf()
    }

    fn send(&mut self, input: GetSaleByIdQuery) -> (r: Result<SaleDTO, SharedError>)
        ensures
            get_sale_by_id_post(old(self).store, final(self).store, input, r),
    {
        let handler: GetSaleByIdQueryHandler = DependenciesResolver.resolve();
        handler.handle(&mut self.store, &input)
    }
}

impl Sender<GetSalesQuery> for Mediator {
    open spec fn sender_wf(&self) -> bool {
        self.store.wf()
    }

    fn send(&mut self, input: GetSalesQuery) -> (r: Result<GetSalesOutput, SharedError>)
        ensures
            get_sales_post(old(self).store, final(self).store, input, r),
    {
        let handler: GetSalesQueryHandler = DependenciesResolver.resolve();
        handler.handle(&mut self.store, &input)
    }
}

impl Sender<GenerateCsvReportQuery> for Mediator {
    open spec fn sender_wf(&self) -> bool {
        self.store.wf()
    }

    fn send(&mut self, input: GenerateCsvReportQuery) -> (r: Result<
        GenerateCsvReportOutput,
        SharedError,
    >)
        ensures
            generate_csv_report_post(old(self).store, final(self).store, r),
    {
        let handler: GenerateCsvReportQueryHandler = DependenciesResolver.resolve();
        handler.handle(&mut self.store, &input)
    }
}

impl Sender<LoginQuery> for Mediator {
    open spec fn sender_wf(&self) -> bool {
        self.store.wf()
    }

    fn send(&mut self, input: LoginQuery) -> (r: Result<LoginOutput, SharedError>)
        ensures
            login_post(old(self).store, final(self).store, input, r),
    {
        let handler: LoginQueryHandler = DependenciesResolver.resolve();
        handler.handle(&mut self.store, &input)
    }
}

} // verus!
