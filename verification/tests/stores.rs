use commerce_core::entities::Product;
use commerce_core::sales::SaleStore;
use commerce_core::store::{CustomerStore, ProductStore};
use commerce_core::value_objects::{CC, Email, ValueObject};

fn customer_store_with(ccs: &[&str]) -> CustomerStore {
    let mut store = CustomerStore::new();
    for (i, cc) in ccs.iter().enumerate() {
        let cc = CC::new(cc.to_string()).unwrap();
        let email = Email::new(format!("c{}@example.com", i)).unwrap();
        store
            .create(&cc, &format!("Customer {}", i), &email, None, None, 1000 + i as u64)
            .unwrap();
    }
    store
}

fn product_store_with(skus: &[&str]) -> ProductStore {
    let mut store = ProductStore::new();
    for (i, sku) in skus.iter().enumerate() {
        store
            .create(sku, &format!("Product {}", i), 100 * (i as u64 + 1), 10, &vec![], None, None, 0)
            .unwrap();
    }
    store
}

#[test]
fn customer_ids_are_sequential() {
    let store = customer_store_with(&["10000", "20000", "30000"]);
    assert_eq!(store.len(), 3);
    assert_eq!(store.get_by_id(1).unwrap().cc().value(), "10000");
    assert_eq!(store.get_by_id(3).unwrap().cc().value(), "30000");
    assert!(store.get_by_id(0).is_none());
    assert!(store.get_by_id(4).is_none());
}

#[test]
fn customer_create_refuses_duplicate_cc() {
    let mut store = customer_store_with(&["10000"]);
    let cc = CC::new("10000".to_string()).unwrap();
    let email = Email::new("dup@example.com".to_string()).unwrap();
    let err = store.create(&cc, "Dup", &email, None, None, 0).unwrap_err();
    assert_eq!(err.code, 500);
    assert_eq!(store.len(), 1);
}

#[test]
fn customer_save_updates_by_cc() {
    let mut store = customer_store_with(&["10000"]);
    let mut customer = store.get_by_id(1).unwrap();
    customer.set_name("Renamed".to_string());
    store.save(&customer, 5000).unwrap();
    let reloaded = store.get_by_id(1).unwrap();
    assert_eq!(reloaded.name(), "Renamed");
    assert_eq!(reloaded.updated_at(), 5000);
    assert_eq!(reloaded.created_at(), 1000);
}

#[test]
fn get_many_by_cc_filters_in_store_order() {
    let store = customer_store_with(&["10000", "20000", "30000"]);
    let wanted = vec![
        CC::new("30000".to_string()).unwrap(),
        CC::new("10000".to_string()).unwrap(),
        CC::new("99999".to_string()).unwrap(),
    ];
    let found = store.get_many_by_cc(&wanted);
    assert_eq!(found.len(), 2);
    assert_eq!(found[0].cc().value(), "10000");
    assert_eq!(found[1].cc().value(), "30000");
}

#[test]
fn get_many_by_skus_filters_in_store_order() {
    let store = product_store_with(&["A1", "B2", "C3"]);
    let found = store.get_many_by_skus(&vec!["C3".to_string(), "A1".to_string()]);
    assert_eq!(found.len(), 2);
    assert_eq!(found[0].sku(), "A1");
    assert_eq!(found[1].sku(), "C3");
    let none = store.get_many_by_skus(&vec!["Z9".to_string()]);
    assert!(none.is_empty());
}

#[test]
fn product_save_updates_by_id_and_keeps_sku() {
    let mut store = product_store_with(&["A1"]);
    let mut product = store.get_by_id(1).unwrap();
    product.set_price(777);
    product.set_stock(3);
    store.save(&product, 9000).unwrap();
    let reloaded = store.get_by_sku("A1").unwrap();
    assert_eq!(reloaded.price(), 777);
    assert_eq!(reloaded.stock(), 3);
    assert_eq!(reloaded.updated_at(), 9000);
}

#[test]
fn sale_store_reconstructs_sales_of_one_customer() {
    let customers = customer_store_with(&["10000", "20000"]);
    let products = product_store_with(&["A1", "B2"]);
    let mut sales = SaleStore::new();
    let first_customer = customers.get_by_id(1).unwrap();
    let second_customer = customers.get_by_id(2).unwrap();
    let a1 = products.get_by_sku("A1").unwrap();
    let b2 = products.get_by_sku("B2").unwrap();
    let lines_a: Vec<(Product, u32)> = vec![(a1.clone(), 2)];
    let lines_b: Vec<(Product, u32)> = vec![(b2.clone(), 1), (a1.clone(), 3)];
    sales.create(&first_customer, &lines_a, 10).unwrap();
    sales.create(&second_customer, &lines_b, 20).unwrap();
    sales.create(&first_customer, &lines_b, 30).unwrap();

    let cc = CC::new("10000".to_string()).unwrap();
    let theirs = sales.get_all_by_customer_cc(&cc, &customers, &products);
    assert_eq!(theirs.len(), 2);
    assert_eq!(theirs[0].id(), 1);
    assert_eq!(theirs[0].products_sale().len(), 1);
    assert_eq!(theirs[1].id(), 3);
    assert_eq!(theirs[1].products_sale().len(), 2);
    assert_eq!(theirs[1].products_sale()[0].0.sku(), "B2");
    assert_eq!(theirs[1].products_sale()[1].1, 3);

    let unknown = CC::new("99999".to_string()).unwrap();
    assert!(sales.get_all_by_customer_cc(&unknown, &customers, &products).is_empty());
}

#[test]
fn sale_reads_skip_unresolvable_rows() {
    // A junction row whose product is missing from the store is dropped from
    // the reconstructed sale, and a header whose customer is missing drops
    // the whole sale, without failing the read.
    let customers = customer_store_with(&["10000"]);
    let full_products = product_store_with(&["A1", "B2"]);
    let customer = customers.get_by_id(1).unwrap();
    let a1 = full_products.get_by_sku("A1").unwrap();
    let b2 = full_products.get_by_sku("B2").unwrap();
    let mut sales = SaleStore::new();
    sales.create(&customer, &vec![(a1.clone(), 1), (b2.clone(), 2)], 10).unwrap();

    // Resolve against a store that never had B2.
    let fewer_products = product_store_with(&["A1"]);
    let sale = sales.get_by_id(&1, &customers, &fewer_products).unwrap();
    assert_eq!(sale.products_sale().len(), 1);
    assert_eq!(sale.products_sale()[0].0.sku(), "A1");

    // Resolve against a customer store that never had the buyer.
    let other_customers = customer_store_with(&["77777"]);
    assert!(sales.get_by_id(&1, &other_customers, &full_products).is_none());
    assert!(sales.get_all(&other_customers, &full_products).is_empty());
}

#[test]
fn sale_snapshot_keeps_registration_prices() {
    let customers = customer_store_with(&["10000"]);
    let products = product_store_with(&["A1"]);
    let customer = customers.get_by_id(1).unwrap();
    let a1 = products.get_by_sku("A1").unwrap();
    let mut sales = SaleStore::new();
    let sale = sales.create(&customer, &vec![(a1, 4)], 10).unwrap();
    // Price 100 in minor units, four units: the snapshot total is exact.
    assert_eq!(sale.total_amount_checked(), Some(400));
    assert_eq!(sale.id(), 1);
    assert_eq!(sale.generated_at(), 10);
    assert_eq!(sale.customer().name(), "Customer 0");
}
