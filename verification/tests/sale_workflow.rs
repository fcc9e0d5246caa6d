use commerce_core::commands::{
    EditCustomerCommand, EditProductCommand, RegisterCustomerCommand, RegisterProductCommand,
    RegisterSaleCommand,
};
use commerce_core::dispatch::{Mediator, Sender, Store};
use commerce_core::queries::{GetCustomerByCcQuery, GetProductBySkuQuery, GetSaleByIdQuery};
use commerce_core::services::{CredentialsValidatorOneUser, CredentialsValidatorOneUserConfig};

fn mediator() -> Mediator {
    let credentials = CredentialsValidatorOneUser {
        config: CredentialsValidatorOneUserConfig {
            user: "username".to_string(),
            pass: "password".to_string(),
            key: "api-key-1".to_string(),
        },
    };
    Mediator::new(Store::new(credentials))
}

fn register_ana(mediator: &mut Mediator) -> u32 {
    mediator
        .send(RegisterCustomerCommand {
            cc: "12345678901".to_string(),
            name: "Ana".to_string(),
            email: "ana@example.com".to_string(),
            phone: None,
            direction: None,
        })
        .unwrap()
        .id
}

fn register_p1(mediator: &mut Mediator, price: u64, stock: u32) -> u32 {
    mediator
        .send(RegisterProductCommand {
            sku: "P1".to_string(),
            name: "Widget".to_string(),
            description: None,
            stock: Some(stock),
            price,
            img_url: None,
            flags: vec![],
        })
        .unwrap()
        .product_id
}

#[test]
fn register_customer_assigns_first_id() {
    let mut m = mediator();
    assert_eq!(register_ana(&mut m), 1);
}

#[test]
fn duplicate_customer_is_conflict_without_write() {
    let mut m = mediator();
    register_ana(&mut m);
    let err = m
        .send(RegisterCustomerCommand {
            cc: "12345678901".to_string(),
            name: "Another Ana".to_string(),
            email: "other@example.com".to_string(),
            phone: None,
            direction: None,
        })
        .unwrap_err();
    assert_eq!(err.code, 400);
    assert_eq!(err.message, "Customer already exists");
    // The row registered first is untouched.
    let dto = m.send(GetCustomerByCcQuery { cc: "12345678901".to_string() }).unwrap();
    assert_eq!(dto.id, 1);
    assert_eq!(dto.name, "Ana");
    assert_eq!(dto.email, "ana@example.com");
}

#[test]
fn register_customer_rejects_bad_email() {
    let mut m = mediator();
    let err = m
        .send(RegisterCustomerCommand {
            cc: "12345678901".to_string(),
            name: "Ana".to_string(),
            email: "nope".to_string(),
            phone: None,
            direction: None,
        })
        .unwrap_err();
    assert_eq!(err.code, 400);
    assert_eq!(err.message, "Invalid email format");
}

#[test]
fn duplicate_product_is_conflict_without_write() {
    let mut m = mediator();
    register_p1(&mut m, 1000, 5);
    let err = m
        .send(RegisterProductCommand {
            sku: "P1".to_string(),
            name: "Impostor".to_string(),
            description: None,
            stock: Some(99),
            price: 1,
            img_url: None,
            flags: vec![],
        })
        .unwrap_err();
    assert_eq!(err.code, 400);
    assert_eq!(err.message, "Product already exists");
    let dto = m.send(GetProductBySkuQuery { sku: "P1".to_string() }).unwrap();
    assert_eq!(dto.name, "Widget");
    assert_eq!(dto.price, 1000);
    assert_eq!(dto.stock, 5);
}

#[test]
fn product_stock_defaults_to_zero() {
    let mut m = mediator();
    m.send(RegisterProductCommand {
        sku: "P2".to_string(),
        name: "Gadget".to_string(),
        description: None,
        stock: None,
        price: 50,
        img_url: None,
        flags: vec![],
    })
    .unwrap();
    let dto = m.send(GetProductBySkuQuery { sku: "P2".to_string() }).unwrap();
    assert_eq!(dto.stock, 0);
}

#[test]
fn register_sale_concrete_scenario() {
    // Customer "12345678901" (Ana), product P1 at 10.00 with stock 5;
    // selling two units leaves stock 3 and totals 20.00.
    let mut m = mediator();
    register_ana(&mut m);
    register_p1(&mut m, 1000, 5);
    let out = m
        .send(RegisterSaleCommand {
            customer_cc: "12345678901".to_string(),
            product_skus_quantity: vec![("P1".to_string(), 2)],
        })
        .unwrap();
    assert_eq!(out.sale_id, 1);
    assert_eq!(out.total_amount, 2000);
    let product = m.send(GetProductBySkuQuery { sku: "P1".to_string() }).unwrap();
    assert_eq!(product.stock, 3);
    let sale = m.send(GetSaleByIdQuery { sale_id: 1 }).unwrap();
    assert_eq!(sale.id, 1);
    assert_eq!(sale.customer.cc, "12345678901");
    assert_eq!(sale.customer.name, "Ana");
    assert_eq!(sale.products.len(), 1);
    assert_eq!(sale.products[0].0.sku, "P1");
    assert_eq!(sale.products[0].1, 2);
    assert_eq!(sale.total_amount, 2000);
}

#[test]
fn sale_with_unknown_sku_commits_nothing() {
    let mut m = mediator();
    register_ana(&mut m);
    register_p1(&mut m, 1000, 5);
    let err = m
        .send(RegisterSaleCommand {
            customer_cc: "12345678901".to_string(),
            product_skus_quantity: vec![("P1".to_string(), 2), ("GHOST".to_string(), 1)],
        })
        .unwrap_err();
    assert_eq!(err.code, 404);
    assert_eq!(err.message, "One or more products not found");
    // No stock change, no sale row.
    let product = m.send(GetProductBySkuQuery { sku: "P1".to_string() }).unwrap();
    assert_eq!(product.stock, 5);
    let missing = m.send(GetSaleByIdQuery { sale_id: 1 }).unwrap_err();
    assert_eq!(missing.code, 404);
}

#[test]
fn sale_with_repeated_sku_is_rejected() {
    let mut m = mediator();
    register_ana(&mut m);
    register_p1(&mut m, 1000, 5);
    let err = m
        .send(RegisterSaleCommand {
            customer_cc: "12345678901".to_string(),
            product_skus_quantity: vec![("P1".to_string(), 1), ("P1".to_string(), 1)],
        })
        .unwrap_err();
    assert_eq!(err.code, 404);
    assert_eq!(err.message, "One or more products not found");
    let product = m.send(GetProductBySkuQuery { sku: "P1".to_string() }).unwrap();
    assert_eq!(product.stock, 5);
}

#[test]
fn sale_for_unknown_customer_fails() {
    let mut m = mediator();
    register_p1(&mut m, 1000, 5);
    let err = m
        .send(RegisterSaleCommand {
            customer_cc: "99999999999".to_string(),
            product_skus_quantity: vec![("P1".to_string(), 1)],
        })
        .unwrap_err();
    assert_eq!(err.code, 404);
    assert_eq!(err.message, "Customer not found");
}

#[test]
fn sale_with_invalid_cc_fails_closed() {
    let mut m = mediator();
    register_p1(&mut m, 1000, 5);
    let err = m
        .send(RegisterSaleCommand {
            customer_cc: "123".to_string(),
            product_skus_quantity: vec![("P1".to_string(), 1)],
        })
        .unwrap_err();
    assert_eq!(err.code, 400);
    assert_eq!(err.message, "CC must be at least 5 characters long");
}

#[test]
fn oversell_is_rejected() {
    let mut m = mediator();
    register_ana(&mut m);
    register_p1(&mut m, 1000, 5);
    let err = m
        .send(RegisterSaleCommand {
            customer_cc: "12345678901".to_string(),
            product_skus_quantity: vec![("P1".to_string(), 6)],
        })
        .unwrap_err();
    assert_eq!(err.code, 400);
    assert_eq!(err.message, "Insufficient stock");
    let product = m.send(GetProductBySkuQuery { sku: "P1".to_string() }).unwrap();
    assert_eq!(product.stock, 5);
}

#[test]
fn two_sales_for_the_last_unit_cannot_both_succeed() {
    // An unprotected read-decrement-write on stock would let two requests
    // racing for the last unit both take it; here the requests serialize
    // through the store and the one applied second is refused, so the pair
    // cannot oversell.
    let mut m = mediator();
    register_ana(&mut m);
    register_p1(&mut m, 1000, 1);
    let first = m.send(RegisterSaleCommand {
        customer_cc: "12345678901".to_string(),
        product_skus_quantity: vec![("P1".to_string(), 1)],
    });
    assert!(first.is_ok());
    let second = m
        .send(RegisterSaleCommand {
            customer_cc: "12345678901".to_string(),
            product_skus_quantity: vec![("P1".to_string(), 1)],
        })
        .unwrap_err();
    assert_eq!(second.code, 400);
    assert_eq!(second.message, "Insufficient stock");
    let product = m.send(GetProductBySkuQuery { sku: "P1".to_string() }).unwrap();
    assert_eq!(product.stock, 0);
}

#[test]
fn edit_customer_updates_given_fields() {
    let mut m = mediator();
    register_ana(&mut m);
    m.send(EditCustomerCommand {
        customer_id: 1,
        name: Some("Ana Maria".to_string()),
        email: None,
        phone: Some("0123456789".to_string()),
        direction: None,
    })
    .unwrap();
    let dto = m.send(GetCustomerByCcQuery { cc: "12345678901".to_string() }).unwrap();
    assert_eq!(dto.name, "Ana Maria");
    assert_eq!(dto.email, "ana@example.com");
    assert_eq!(dto.phone, Some("0123456789".to_string()));
}

#[test]
fn edit_customer_rejects_bad_phone_without_write() {
    let mut m = mediator();
    register_ana(&mut m);
    let err = m
        .send(EditCustomerCommand {
            customer_id: 1,
            name: Some("Changed".to_string()),
            email: None,
            phone: Some("123".to_string()),
            direction: None,
        })
        .unwrap_err();
    assert_eq!(err.code, 400);
    assert_eq!(err.message, "Invalid phone number format");
    let dto = m.send(GetCustomerByCcQuery { cc: "12345678901".to_string() }).unwrap();
    assert_eq!(dto.name, "Ana");
}

#[test]
fn edit_unknown_customer_is_not_found() {
    let mut m = mediator();
    let err = m
        .send(EditCustomerCommand {
            customer_id: 1,
            name: None,
            email: None,
            phone: None,
            direction: None,
        })
        .unwrap_err();
    assert_eq!(err.code, 404);
    assert_eq!(err.message, "Customer not found");
}

#[test]
fn edit_product_updates_given_fields() {
    let mut m = mediator();
    register_p1(&mut m, 1000, 5);
    m.send(EditProductCommand {
        product_id: 1,
        name: None,
        description: Some("A fine widget".to_string()),
        stock: Some(8),
        price: Some(1250),
        img_url: Some("https://example.com/w.png".to_string()),
        flags: None,
    })
    .unwrap();
    let dto = m.send(GetProductBySkuQuery { sku: "P1".to_string() }).unwrap();
    assert_eq!(dto.name, "Widget");
    assert_eq!(dto.description, Some("A fine widget".to_string()));
    assert_eq!(dto.stock, 8);
    assert_eq!(dto.price, 1250);
    assert_eq!(dto.img_url, Some("https://example.com/w.png".to_string()));
}

#[test]
fn edit_product_rejects_bad_url() {
    let mut m = mediator();
    register_p1(&mut m, 1000, 5);
    let err = m
        .send(EditProductCommand {
            product_id: 1,
            name: None,
            description: None,
            stock: None,
            price: None,
            img_url: Some("example.com".to_string()),
            flags: None,
        })
        .unwrap_err();
    assert_eq!(err.code, 400);
    assert_eq!(err.message, "Invalid URL format");
}

#[test]
fn sale_reads_reflect_current_product_price() {
    // Reconstruction resolves products against their current rows, so a
    // price edit after the sale shows up in the reconstructed sale, while
    // the total returned at registration time used the old price.
    let mut m = mediator();
    register_ana(&mut m);
    register_p1(&mut m, 1000, 5);
    let out = m
        .send(RegisterSaleCommand {
            customer_cc: "12345678901".to_string(),
            product_skus_quantity: vec![("P1".to_string(), 2)],
        })
        .unwrap();
    assert_eq!(out.total_amount, 2000);
    m.send(EditProductCommand {
        product_id: 1,
        name: None,
        description: None,
        stock: None,
        price: Some(500),
        img_url: None,
        flags: None,
    })
    .unwrap();
    let sale = m.send(GetSaleByIdQuery { sale_id: 1 }).unwrap();
    assert_eq!(sale.total_amount, 1000);
}
