//! Plain transfer records handed to callers: entity data without the
//! entity's behaviour, with prices in minor currency units and the
//! generation time rendered as RFC 3339 text.

use vstd::prelude::*;
use crate::entities::{Customer, CustomerV, LineV, Product, ProductV, Sale, SaleV, clone_strings};
use crate::textfmt::{MAX_TIMESTAMP, format_rfc3339, rfc3339_of};
use crate::value_objects::ValueObject;

verus! {

#[derive(Debug)]
pub struct CustomerDTO {
    pub id: u32,
    pub cc: String,
    pub name: String,
    pub email: String,
    pub phone: Option<String>,
    pub direction: Option<String>,
}

/// The mathematical content of a `CustomerDTO`.
pub struct CustomerDTOV {
    pub id: u32,
    pub cc: Seq<char>,
    pub name: Seq<char>,
    pub email: Seq<char>,
    pub phone: Option<Seq<char>>,
    pub direction: Option<Seq<char>>,
}

impl View for CustomerDTO {
    type V = CustomerDTOV;

    open spec fn view(&self) -> CustomerDTOV {
        CustomerDTOV {
            id: self.id,
            cc: self.cc@,
            name: self.name@,
            email: self.email@,
            phone: match self.phone {
                Some(p) => Some(p@),
                None => None,
            },
            direction: match self.direction {
                Some(d) => Some(d@),
                None => None,
            },
        }
    }
}

/// The transfer form of a customer view.
pub open spec fn customer_dto_of(c: CustomerV) -> CustomerDTOV {
    CustomerDTOV {
        id: c.id,
        cc: c.cc,
        name: c.name,
        email: c.email,
        phone: c.phone,
        direction: c.direction,
    }
}

impl CustomerDTO {
    pub fn from(customer: &Customer) -> (r: CustomerDTO)
        ensures
            r@ == customer_dto_of(customer@),
    {
        CustomerDTO {
            id: customer.id(),
            cc: customer.cc().value().clone(),
            name: customer.name().clone(),
            email: customer.email().value().clone(),
            phone: match customer.phone() {
                Some(p) => Some(p.value().clone()),
                None => None,
            },
            direction: match customer.direction() {
                Some(d) => Some(d.clone()),
                None => None,
            },
        }
    }
}

#[derive(Debug)]
pub struct ProductDTO {
    pub id: u32,
    pub sku: String,
    pub name: String,
    pub price: u64,
    pub stock: u32,
    pub flags: Vec<String>,
    pub img_url: Option<String>,
    pub description: Option<String>,
}

/// The mathematical content of a `ProductDTO`.
pub struct ProductDTOV {
    pub id: u32,
    pub sku: Seq<char>,
    pub name: Seq<char>,
    pub price: u64,
    pub stock: u32,
    pub flags: Seq<Seq<char>>,
    pub img_url: Option<Seq<char>>,
    pub description: Option<Seq<char>>,
}

impl View for ProductDTO {
    type V = ProductDTOV;

    open spec fn view(&self) -> ProductDTOV {
        ProductDTOV {
            id: self.id,
            sku: self.sku@,
            name: self.name@,
            price: self.price,
            stock: self.stock,
            flags: self.flags.deep_view(),
            img_url: match self.img_url {
                Some(u) => Some(u@),
                None => None,
            },
            description: match self.description {
                Some(d) => Some(d@),
                None => None,
            },
        }
    }
}

/// The transfer form of a product view.
pub open spec fn product_dto_of(p: ProductV) -> ProductDTOV {
    ProductDTOV {
        id: p.id,
        sku: p.sku,
        name: p.name,
        price: p.price,
        stock: p.stock,
        flags: p.flags,
        img_url: p.img_url,
        description: p.description,
    }
}

impl ProductDTO {
    pub fn from(product: &Product) -> (r: ProductDTO)
        ensures
            r@ == product_dto_of(product@),
    {
        ProductDTO {
            id: product.id(),
            sku: product.sku().clone(),
            name: product.name().clone(),
            price: product.price(),
            stock: product.stock(),
            flags: clone_strings(product.flags()),
            img_url: match product.img_url() {
                Some(u) => Some(u.value().clone()),
                None => None,
            },
            description: match product.description() {
                Some(d) => Some(d.clone()),
                None => None,
            },
        }
    }
}

#[derive(Debug)]
pub struct SaleDTO {
    pub id: u32,
    pub customer: CustomerDTO,
    pub products: Vec<(ProductDTO, u32)>,
    pub total_amount: u64,
    pub generated_at: String,
}

/// The mathematical content of a `SaleDTO`.
pub struct SaleDTOV {
    pub id: u32,
    pub customer: CustomerDTOV,
    pub products: Seq<(ProductDTOV, u32)>,
    pub total_amount: u64,
    pub generated_at: Seq<char>,
}

impl View for SaleDTO {
    type V = SaleDTOV;

    open spec fn view(&self) -> SaleDTOV {
        SaleDTOV {
            id: self.id,
            customer: self.customer@,
            products: self.products@.map(
                |i: int, pq: (ProductDTO, u32)| (pq.0@, pq.1),
            ),
            total_amount: self.total_amount,
            generated_at: self.generated_at@,
        }
    }
}

/// The transfer form of a sale view: line items as product transfer records,
/// the total derived from the snapshot, the time rendered as RFC 3339 text.
pub open spec fn sale_dto_of(s: SaleV) -> SaleDTOV {
    SaleDTOV {
        id: s.id,
        customer: customer_dto_of(s.customer),
        products: s.lines.map(
            |i: int, l: LineV| (product_dto_of(l.product), l.quantity),
        ),
        total_amount: s.total() as u64,
        generated_at: rfc3339_of(s.generated_at as int),
    }
}

impl SaleDTO {
    /// Builds the transfer record, recomputing the total from the snapshot;
    /// `None` when the total does not fit the transfer field.
    #[verifier::loop_isolation(false)]
    pub fn from_sale(sale: &Sale) -> (r: Option<SaleDTO>)
        requires
            sale@.generated_at <= MAX_TIMESTAMP,
        ensures
            r is Some <==> sale@.total() <= u64::MAX,
            r is Some ==> r->0@ == sale_dto_of(sale@),
    {
        let total_amount = match sale.total_amount_checked() {
            Some(t) => t,
            None => {
                return None;
            },
        };
        let lines = sale.products_sale();
        let n = lines.len();
        let mut products: Vec<(ProductDTO, u32)> = Vec::new();
        let ghost target = sale_dto_of(sale@).products;
        let mut i: usize = 0;
        while i < n
            invariant
                i <= n,
                products@.len() == i,
                target.len() == n,
                forall|j: int|
                    0 <= j < i ==> (#[trigger] products@[j].0@, products@[j].1) == target[j],
            decreases n - i,
        {
            let pair = &lines[i];
            products.push((ProductDTO::from(&pair.0), pair.1));
            i += 1;
        }
        let dto = SaleDTO {
            id: sale.id(),
            customer: CustomerDTO::from(sale.customer()),
            products,
            total_amount,
            generated_at: format_rfc3339(sale.generated_at()),
        };
        assert(dto@.products =~= target);
        Some(dto)
    }
}

} // verus!
