use commerce_core::commands::{RegisterCustomerCommand, RegisterProductCommand, RegisterSaleCommand};
use commerce_core::dispatch::{Mediator, Sender, Store};
use commerce_core::pagination::Pagination;
use commerce_core::queries::{
    GenerateCsvReportQuery, GetCustomersQuery, GetProductsQuery, GetSalesQuery,
};
use commerce_core::services::{CredentialsValidatorOneUser, CredentialsValidatorOneUserConfig};

fn mediator() -> Mediator {
    let credentials = CredentialsValidatorOneUser {
        config: CredentialsValidatorOneUserConfig {
            user: "username".to_string(),
            pass: "password".to_string(),
            key: "api-key-1".to_string(),
        },
    };
    Mediator::new(Store::new(credentials))
}

fn register_customers(m: &mut Mediator, count: u32) {
    for i in 0..count {
        m.send(RegisterCustomerCommand {
            cc: format!("3000000{:04}", i),
            name: format!("Customer {}", i),
            email: format!("c{}@example.com", i),
            phone: None,
            direction: None,
        })
        .unwrap();
    }
}

fn register_products(m: &mut Mediator, count: u32) {
    for i in 0..count {
        m.send(RegisterProductCommand {
            sku: format!("SKU{}", i),
            name: format!("Product {}", i),
            description: None,
            stock: Some(10),
            price: 100 + i as u64,
            img_url: None,
            flags: vec![],
        })
        .unwrap();
    }
}

#[test]
fn customers_paginate_newest_first() {
    // Five rows at page size two: ceil(5 / 2) = 3 pages holding 2, 2 and 1
    // items, and total_items is 5 on every page.
    let mut m = mediator();
    register_customers(&mut m, 5);
    let page1 = m
        .send(GetCustomersQuery { pagination: Pagination { page: 1, per_page: 2 } })
        .unwrap()
        .pagination_result;
    assert_eq!(page1.items_count, 2);
    assert_eq!(page1.total_items, 5);
    assert_eq!(page1.current_page, 1);
    assert_eq!(page1.per_page, 2);
    assert_eq!(page1.items[0].name, "Customer 4");
    assert_eq!(page1.items[1].name, "Customer 3");
    let page3 = m
        .send(GetCustomersQuery { pagination: Pagination { page: 3, per_page: 2 } })
        .unwrap()
        .pagination_result;
    assert_eq!(page3.items_count, 1);
    assert_eq!(page3.total_items, 5);
    assert_eq!(page3.items[0].name, "Customer 0");
    let page4 = m
        .send(GetCustomersQuery { pagination: Pagination { page: 4, per_page: 2 } })
        .unwrap()
        .pagination_result;
    assert_eq!(page4.items_count, 0);
    assert_eq!(page4.total_items, 5);
    assert_eq!(page4.current_page, 4);
}

#[test]
fn invalid_pagination_is_rejected() {
    let mut m = mediator();
    let err = m
        .send(GetCustomersQuery { pagination: Pagination { page: 0, per_page: 2 } })
        .unwrap_err();
    assert_eq!(err.code, 400);
    assert_eq!(err.message, "Invalid pagination");
}

#[test]
fn products_paginate_in_store_order() {
    let mut m = mediator();
    register_products(&mut m, 5);
    let page2 = m
        .send(GetProductsQuery { pagination: Pagination { page: 2, per_page: 2 } })
        .unwrap()
        .pagination_result;
    assert_eq!(page2.items_count, 2);
    assert_eq!(page2.total_items, 5);
    assert_eq!(page2.items[0].sku, "SKU2");
    assert_eq!(page2.items[1].sku, "SKU3");
}

#[test]
fn empty_store_pages_are_empty_envelopes() {
    let mut m = mediator();
    let page = m
        .send(GetProductsQuery { pagination: Pagination { page: 1, per_page: 10 } })
        .unwrap()
        .pagination_result;
    assert_eq!(page.items_count, 0);
    assert_eq!(page.total_items, 0);
    assert_eq!(page.current_page, 1);
    assert_eq!(page.per_page, 10);
}

#[test]
fn sales_paginate_newest_first_with_full_join() {
    let mut m = mediator();
    register_customers(&mut m, 1);
    register_products(&mut m, 3);
    m.set_now(100);
    for i in 0..3u32 {
        m.send(RegisterSaleCommand {
            customer_cc: "30000000000".to_string(),
            product_skus_quantity: vec![(format!("SKU{}", i), 1)],
        })
        .unwrap();
        let t = m.store.now;
        m.set_now(t + 1);
    }
    let page1 = m
        .send(GetSalesQuery { pagination: Pagination { page: 1, per_page: 2 } })
        .unwrap()
        .pagination_result;
    assert_eq!(page1.items_count, 2);
    assert_eq!(page1.total_items, 3);
    // Newest first: the last registered sale leads.
    assert_eq!(page1.items[0].id, 3);
    assert_eq!(page1.items[0].products[0].0.sku, "SKU2");
    assert_eq!(page1.items[1].id, 2);
    let page2 = m
        .send(GetSalesQuery { pagination: Pagination { page: 2, per_page: 2 } })
        .unwrap()
        .pagination_result;
    assert_eq!(page2.items_count, 1);
    assert_eq!(page2.total_items, 3);
    assert_eq!(page2.items[0].id, 1);
    assert_eq!(page2.items[0].customer.cc, "30000000000");
}

#[test]
fn csv_report_renders_exact_lines() {
    let mut m = mediator();
    m.send(RegisterCustomerCommand {
        cc: "12345678901".to_string(),
        name: "Ana".to_string(),
        email: "ana@example.com".to_string(),
        phone: None,
        direction: None,
    })
    .unwrap();
    m.send(RegisterProductCommand {
        sku: "P1".to_string(),
        name: "Widget".to_string(),
        description: None,
        stock: Some(5),
        price: 1000,
        img_url: None,
        flags: vec![],
    })
    .unwrap();
    m.send(RegisterProductCommand {
        sku: "P2".to_string(),
        name: "Gadget".to_string(),
        description: None,
        stock: Some(5),
        price: 355,
        img_url: None,
        flags: vec![],
    })
    .unwrap();
    m.set_now(1431648000);
    m.send(RegisterSaleCommand {
        customer_cc: "12345678901".to_string(),
        product_skus_quantity: vec![("P1".to_string(), 2), ("P2".to_string(), 1)],
    })
    .unwrap();
    let out = m.send(GenerateCsvReportQuery).unwrap();
    let expected = "Sale ID, Generated At, Customer CC, Products(Product SKU:Quantity), Total Amount\n\
        1,2015-05-15T00:00:00+00:00,12345678901,P1:2&P2:1,23.55\n";
    assert_eq!(out.csv_data, expected);
}

#[test]
fn csv_report_of_empty_store_is_header_only() {
    let mut m = mediator();
    let out = m.send(GenerateCsvReportQuery).unwrap();
    assert_eq!(
        out.csv_data,
        "Sale ID, Generated At, Customer CC, Products(Product SKU:Quantity), Total Amount\n"
    );
}

#[test]
fn sale_timestamps_render_as_rfc3339() {
    // The rendered generation time must be the RFC 3339 form of the clock
    // value the sale was registered under, not the raw seconds.
    let mut m = mediator();
    register_customers(&mut m, 1);
    register_products(&mut m, 1);
    m.set_now(1431648000);
    m.send(RegisterSaleCommand {
        customer_cc: "30000000000".to_string(),
        product_skus_quantity: vec![("SKU0".to_string(), 1)],
    })
    .unwrap();
    let page = m
        .send(GetSalesQuery { pagination: Pagination { page: 1, per_page: 1 } })
        .unwrap()
        .pagination_result;
    assert_eq!(page.items[0].generated_at, "2015-05-15T00:00:00+00:00");
}
