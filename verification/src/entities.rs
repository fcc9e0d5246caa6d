//! The domain records: `Customer`, `Product` and `Sale`.
//!
//! Each entity has a mathematical view struct so contracts can speak of a
//! record as plain data. Prices are integer minor currency units; timestamps
//! are seconds since the Unix epoch, handed in by the caller (the library
//! has no clock of its own). A `Sale` owns snapshots of its customer and its
//! line items; its total amount is derived from the snapshot on every access
//! and is never stored.

use vstd::prelude::*;
use crate::value_objects::{CC, Email, Phone, Url, ValueObject};

verus! {

/// The mathematical content of a `Customer`.
pub struct CustomerV {
    pub id: u32,
    pub cc: Seq<char>,
    pub name: Seq<char>,
    pub email: Seq<char>,
    pub phone: Option<Seq<char>>,
    pub direction: Option<Seq<char>>,
    pub created_at: u64,
    pub updated_at: u64,
}

#[derive(Debug)]
pub struct Customer {
    id: u32,
    cc: CC,
    name: String,
    email: Email,
    phone: Option<Phone>,
    direction: Option<String>,
    created_at: u64,
    updated_at: u64,
}

impl View for Customer {
    type V = CustomerV;

    closed spec fn view(&self) -> CustomerV {
        CustomerV {
            id: self.id,
            cc: self.cc@,
            name: self.name@,
            email: self.email@,
            phone: match self.phone {
                Some(p) => Some(p@),
                None => None,
            },
            direction: match self.direction {
                Some(d) => Some(d@),
                None => None,
            },
            created_at: self.created_at,
            updated_at: self.updated_at,
        }
    }
}

impl Customer {
    pub fn new(
        id: u32,
        cc: CC,
        name: String,
        email: Email,
        phone: Option<Phone>,
        direction: Option<String>,
        created_at: u64,
        updated_at: u64,
    ) -> (r: Customer)
        ensures
            r@.id == id,
            r@.cc == cc@,
            r@.name == name@,
            r@.email == email@,
            r@.phone == match phone {
                Some(p) => Some(p@),
                None => None::<Seq<char>>,
            },
            r@.direction == match direction {
                Some(d) => Some(d@),
                None => None::<Seq<char>>,
            },
            r@.created_at == created_at,
            r@.updated_at == updated_at,
    {
        Customer { id, cc, name, email, phone, direction, created_at, updated_at }
    }

    pub fn id(&self) -> (r: u32)
        ensures
            r == self@.id,
    {
        self.id
    }

    pub fn cc(&self) -> (r: &CC)
        ensures
            r@ == self@.cc,
    {
        &self.cc
    }

    pub fn name(&self) -> (r: &String)
        ensures
            r@ == self@.name,
    {
        &self.name
    }

    pub fn email(&self) -> (r: &Email)
        ensures
            r@ == self@.email,
    {
        &self.email
    }

    pub fn phone(&self) -> (r: &Option<Phone>)
        ensures
            self@.phone == match r {
                Some(p) => Some(p@),
                None => None::<Seq<char>>,
            },
    {
        &self.phone
    }

    pub fn direction(&self) -> (r: &Option<String>)
        ensures
            self@.direction == match r {
                Some(d) => Some(d@),
                None => None::<Seq<char>>,
            },
    {
        &self.direction
    }

    pub fn created_at(&self) -> (r: u64)
        ensures
            r == self@.created_at,
    {
        self.created_at
    }

    pub fn updated_at(&self) -> (r: u64)
        ensures
            r == self@.updated_at,
    {
        self.updated_at
    }

    pub fn set_name(&mut self, name: String)
        ensures
            final(self)@ == (CustomerV { name: name@, ..old(self)@ }),
    {
        self.name = name;
    }

    pub fn set_email(&mut self, email: Email)
        ensures
            final(self)@ == (CustomerV { email: email@, ..old(self)@ }),
    {
        self.email = email;
    }

    pub fn set_phone(&mut self, phone: Option<Phone>)
        ensures
            final(self)@ == (CustomerV {
                phone: match phone {
                    Some(p) => Some(p@),
                    None => None::<Seq<char>>,
                },
                ..old(self)@
            }),
    {
        self.phone = phone;
    }

    pub fn set_direction(&mut self, direction: Option<String>)
        ensures
            final(self)@ == (CustomerV {
                direction: match direction {
                    Some(d) => Some(d@),
                    None => None::<Seq<char>>,
                },
                ..old(self)@
            }),
    {
        self.direction = direction;
    }

    pub fn set_updated_at(&mut self, updated_at: u64)
        ensures
            final(self)@ == (CustomerV { updated_at, ..old(self)@ }),
    {
        self.updated_at = updated_at;
    }
}

impl Clone for Customer {
    fn clone(&self) -> (r: Self)
        ensures
            r@ == self@,
    {
        Customer {
            id: self.id,
            cc: self.cc.clone(),
            name: self.name.clone(),
            email: self.email.clone(),
            phone: match &self.phone {
                Some(p) => Some(p.clone()),
                None => None,
            },
            direction: match &self.direction {
                Some(d) => Some(d.clone()),
                None => None,
            },
            created_at: self.created_at,
            updated_at: self.updated_at,
        }
    }
}

/// The mathematical content of a `Product`.
pub struct ProductV {
    pub id: u32,
    pub sku: Seq<char>,
    pub name: Seq<char>,
    pub price: u64,
    pub stock: u32,
    pub flags: Seq<Seq<char>>,
    pub img_url: Option<Seq<char>>,
    pub description: Option<Seq<char>>,
    pub created_at: u64,
    pub updated_at: u64,
}

#[derive(Debug)]
pub struct Product {
    id: u32,
    sku: String,
    name: String,
    price: u64,
    stock: u32,
    flags: Vec<String>,
    img_url: Option<Url>,
    description: Option<String>,
    created_at: u64,
    updated_at: u64,
}

impl View for Product {
    type V = ProductV;

    closed spec fn view(&self) -> ProductV {
        ProductV {
            id: self.id,
            sku: self.sku@,
            name: self.name@,
            price: self.price,
            stock: self.stock,
            flags: self.flags.deep_view(),
            img_url: match self.img_url {
                Some(u) => Some(u@),
                None => None,
            },
            description: match self.description {
                Some(d) => Some(d@),
                None => None,
            },
            created_at: self.created_at,
            updated_at: self.updated_at,
        }
    }
}

impl Product {
    pub fn new(
        id: u32,
        sku: String,
        name: String,
        price: u64,
        stock: u32,
        flags: Vec<String>,
        img_url: Option<Url>,
        description: Option<String>,
        created_at: u64,
        updated_at: u64,
    ) -> (r: Product)
        ensures
            r@ == (ProductV {
                id,
                sku: sku@,
                name: name@,
                price,
                stock,
                flags: flags.deep_view(),
                img_url: match img_url {
                    Some(u) => Some(u@),
                    None => None::<Seq<char>>,
                },
                description: match description {
                    Some(d) => Some(d@),
                    None => None::<Seq<char>>,
                },
                created_at,
                updated_at,
            }),
    {
        Product { id, sku, name, price, stock, flags, img_url, description, created_at, updated_at }
    }

    pub fn id(&self) -> (r: u32)
        ensures
            r == self@.id,
    {
        self.id
    }

    pub fn sku(&self) -> (r: &String)
        ensures
            r@ == self@.sku,
    {
        &self.sku
    }

    pub fn name(&self) -> (r: &String)
        ensures
            r@ == self@.name,
    {
        &self.name
    }

    pub fn price(&self) -> (r: u64)
        ensures
            r == self@.price,
    {
        self.price
    }

    pub fn stock(&self) -> (r: u32)
        ensures
            r == self@.stock,
    {
        self.stock
    }

    pub fn flags(&self) -> (r: &Vec<String>)
        ensures
            r.deep_view() == self@.flags,
    {
        &self.flags
    }

    pub fn img_url(&self) -> (r: &Option<Url>)
        ensures
            self@.img_url == match r {
                Some(u) => Some(u@),
                None => None::<Seq<char>>,
            },
    {
        &self.img_url
    }

    pub fn description(&self) -> (r: &Option<String>)
        ensures
            self@.description == match r {
                Some(d) => Some(d@),
                None => None::<Seq<char>>,
            },
    {
        &self.description
    }

    pub fn created_at(&self) -> (r: u64)
        ensures
            r == self@.created_at,
    {
        self.created_at
    }

    pub fn updated_at(&self) -> (r: u64)
        ensures
            r == self@.updated_at,
    {
        self.updated_at
    }

    pub fn set_stock(&mut self, stock: u32)
        ensures
            final(self)@ == (ProductV { stock, ..old(self)@ }),
    {
        self.stock = stock;
    }

    pub fn set_price(&mut self, price: u64)
        ensures
            final(self)@ == (ProductV { price, ..old(self)@ }),
    {
        self.price = price;
    }

    pub fn set_description(&mut self, description: Option<String>)
        ensures
            final(self)@ == (ProductV {
                description: match description {
                    Some(d) => Some(d@),
                    None => None::<Seq<char>>,
                },
                ..old(self)@
            }),
    {
        self.description = description;
    }

    pub fn set_img_url(&mut self, img_url: Option<Url>)
        ensures
            final(self)@ == (ProductV {
                img_url: match img_url {
                    Some(u) => Some(u@),
                    None => None::<Seq<char>>,
                },
                ..old(self)@
            }),
    {
        self.img_url = img_url;
    }

    pub fn set_name(&mut self, name: String)
        ensures
            final(self)@ == (ProductV { name: name@, ..old(self)@ }),
    {
        self.name = name;
    }

    pub fn set_flags(&mut self, flags: Vec<String>)
        ensures
            final(self)@ == (ProductV { flags: flags.deep_view(), ..old(self)@ }),
    {
        self.flags = flags;
    }

    pub fn set_updated_at(&mut self, updated_at: u64)
        ensures
            final(self)@ == (ProductV { updated_at, ..old(self)@ }),
    {
        self.updated_at = updated_at;
    }
}

impl Clone for Product {
    fn clone(&self) -> (r: Self)
        ensures
            r@ == self@,
    {
        let flags = clone_strings(&self.flags);
        Product {
            id: self.id,
            sku: self.sku.clone(),
            name: self.name.clone(),
            price: self.price,
            stock: self.stock,
            flags,
            img_url: match &self.img_url {
                Some(u) => Some(u.clone()),
                None => None,
            },
            description: match &self.description {
                Some(d) => Some(d.clone()),
                None => None,
            },
            created_at: self.created_at,
            updated_at: self.updated_at,
        }
    }
}

/// Clones a vector of strings, keeping its view.
pub fn clone_strings(v: &Vec<String>) -> (r: Vec<String>)
    ensures
        r.deep_view() == v.deep_view(),
{
    let mut r: Vec<String> = Vec::new();
    let mut i: usize = 0;
    while i < v.len()
        invariant
            i <= v.len(),
            r@ =~= v@.subrange(0, i as int),
        decreases v.len() - i,
    {
        r.push(v[i].clone());
        assert(r@ =~= v@.subrange(0, i + 1));
        i += 1;
    }
    assert(r@ =~= v@);
    assert(r.deep_view() =~= v.deep_view());
    r
}

/// The mathematical content of one line item: a product snapshot and the
/// quantity sold.
pub struct LineV {
    pub product: ProductV,
    pub quantity: u32,
}

/// The views of a list of line items.
pub open spec fn lines_view(lines: Seq<(Product, u32)>) -> Seq<LineV> {
    lines.map(|i: int, pq: (Product, u32)| LineV { product: pq.0@, quantity: pq.1 })
}

/// The derived total of a sale: the sum over its line items of
/// `price * quantity`, as an unbounded integer.
pub open spec fn total_of(lines: Seq<LineV>) -> int
    decreases lines.len(),
{
    if lines.len() == 0 {
        0
    } else {
        total_of(lines.drop_last()) + lines.last().product.price * lines.last().quantity
    }
}

/// The mathematical content of a `Sale`.
pub struct SaleV {
    pub id: u32,
    pub lines: Seq<LineV>,
    pub customer: CustomerV,
    pub generated_at: u64,
}

impl SaleV {
    /// The sale's stated total: derived, never stored.
    pub open spec fn total(self) -> int {
        total_of(self.lines)
    }
}

#[derive(Debug)]
pub struct Sale {
    id: u32,
    products_sale: Vec<(Product, u32)>,
    customer: Customer,
    generated_at: u64,
}

impl View for Sale {
    type V = SaleV;

    closed spec fn view(&self) -> SaleV {
        SaleV {
            id: self.id,
            lines: lines_view(self.products_sale@),
            customer: self.customer@,
            generated_at: self.generated_at,
        }
    }
}

impl Sale {
    pub fn new(id: u32, products: Vec<(Product, u32)>, customer: Customer, generated_at: u64) -> (r:
        Sale)
        ensures
            r@ == (SaleV {
                id,
                lines: lines_view(products@),
                customer: customer@,
                generated_at,
            }),
    {
        Sale { id, products_sale: products, customer, generated_at }
    }

    pub fn id(&self) -> (r: u32)
        ensures
            r == self@.id,
    {
        self.id
    }

    pub fn products_sale(&self) -> (r: &Vec<(Product, u32)>)
        ensures
            lines_view(r@) == self@.lines,
    {
        &self.products_sale
    }

    pub fn customer(&self) -> (r: &Customer)
        ensures
            r@ == self@.customer,
    {
        &self.customer
    }

    pub fn generated_at(&self) -> (r: u64)
        ensures
            r == self@.generated_at,
    {
        self.generated_at
    }

    /// Recomputes the total amount from the line-item snapshot. The bound in
    /// the precondition is established once, when the sale is registered.
    pub fn total_amount(&self) -> (r: u64)
        requires
            self@.total() <= u64::MAX,
        ensures
            r == self@.total(),
    {
        let n = self.products_sale.len();
        let mut acc: u64 = 0;
        let mut i: usize = 0;
        while i < n
            invariant
                i <= n,
                n == self.products_sale.len(),
                self@.lines.len() == n,
                acc == total_of(self@.lines.subrange(0, i as int)),
                total_of(self@.lines) <= u64::MAX,
            decreases n - i,
        {
            let (p, q) = &self.products_sale[i];
            let price = p.price();
            let quantity = *q;
            proof {
                lemma_total_prefix_bound(self@.lines, i + 1);
                assert(self@.lines.subrange(0, i + 1) =~= self@.lines.subrange(
                    0,
                    i as int,
                ).push(self@.lines[i as int]));
                assert(self@.lines.subrange(0, i + 1).drop_last() =~= self@.lines.subrange(
                    0,
                    i as int,
                ));
                assert(0 <= total_of(self@.lines.subrange(0, i + 1)));
            }
            acc = acc + price * (quantity as u64);
            i += 1;
        }
        proof {
            assert(self@.lines.subrange(0, n as int) =~= self@.lines);
        }
        acc
    }

    /// Recomputes the total amount, telling the caller when it does not fit
    /// the result type instead of requiring a bound.
    pub fn total_amount_checked(&self) -> (r: Option<u64>)
        ensures
            r is Some <==> self@.total() <= u64::MAX,
            r is Some ==> r->0 == self@.total(),
    {
        let n = self.products_sale.len();
        let mut acc: u64 = 0;
        let mut i: usize = 0;
        while i < n
            invariant
                i <= n,
                n == self.products_sale.len(),
                self@.lines.len() == n,
                acc == total_of(self@.lines.subrange(0, i as int)),
            decreases n - i,
        {
            let (p, q) = &self.products_sale[i];
            let price = p.price();
            let quantity = *q;
            proof {
                lemma_total_nonneg(self@.lines.subrange(0, i as int));
                assert(self@.lines.subrange(0, i + 1) =~= self@.lines.subrange(
                    0,
                    i as int,
                ).push(self@.lines[i as int]));
                assert(self@.lines.subrange(0, i + 1).drop_last() =~= self@.lines.subrange(
                    0,
                    i as int,
                ));
                assert(price * quantity <= u64::MAX * u32::MAX) by (nonlinear_arith)
                    requires
                        0 <= price <= u64::MAX,
                        0 <= quantity <= u32::MAX,
                ;
            }
            let term: u128 = (price as u128) * (quantity as u128);
            let wide: u128 = (acc as u128) + term;
            if wide > u64::MAX as u128 {
                proof {
                    lemma_total_prefix_bound(self@.lines, i + 1);
                }
                return None;
            }
            acc = wide as u64;
            i += 1;
        }
        proof {
            assert(self@.lines.subrange(0, n as int) =~= self@.lines);
        }
        Some(acc)
    }
}

impl Clone for Sale {
    fn clone(&self) -> (r: Self)
        ensures
            r@ == self@,
    {
        let mut lines: Vec<(Product, u32)> = Vec::new();
        let mut i: usize = 0;
        while i < self.products_sale.len()
            invariant
                i <= self.products_sale.len(),
                lines@.len() == i,
                forall|j: int| #![all_triggers]
                    0 <= j < i ==> lines@[j].0@ == self.products_sale@[j].0@ && lines@[j].1
                        == self.products_sale@[j].1,
            decreases self.products_sale.len() - i,
        {
            let pair = &self.products_sale[i];
            lines.push((pair.0.clone(), pair.1));
            i += 1;
        }
        assert(lines_view(lines@) =~= lines_view(self.products_sale@));
        Sale {
            id: self.id,
            products_sale: lines,
            customer: self.customer.clone(),
            generated_at: self.generated_at,
        }
    }
}

/// Every total over a prefix is non-negative and no larger than the total
/// over the whole list.
pub proof fn lemma_total_prefix_bound(lines: Seq<LineV>, k: int)
    requires
        0 <= k <= lines.len(),
    ensures
        0 <= total_of(lines.subrange(0, k)) <= total_of(lines),
    decreases lines.len(),
{
    lemma_total_nonneg(lines.subrange(0, k));
    if k == lines.len() {
        assert(lines.subrange(0, k) =~= lines);
    } else {
        let shorter = lines.drop_last();
        assert(shorter.subrange(0, k) =~= lines.subrange(0, k));
        lemma_total_prefix_bound(shorter, k);
        assert(0 <= lines.last().product.price * lines.last().quantity) by (nonlinear_arith);
    }
}

/// A derived total is never negative.
pub proof fn lemma_total_nonneg(lines: Seq<LineV>)
    ensures
        0 <= total_of(lines),
    decreases lines.len(),
{
    if lines.len() > 0 {
        lemma_total_nonneg(lines.drop_last());
        assert(0 <= lines.last().product.price * lines.last().quantity) by (nonlinear_arith);
    }
}

} // verus!
