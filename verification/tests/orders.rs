use shipping_costs::columns::{Column, Columns, MissingHeader};
use shipping_costs::method::ShippingMethod;
use shipping_costs::order::{normalize_rows, Order, OrderFromCSVInput};
use shipping_costs::region::Region;
use shipping_costs::weight::WeightRange;

fn row(fields: [&str; 7]) -> OrderFromCSVInput {
    OrderFromCSVInput {
        zip: fields[0].to_string(),
        retail_value: fields[1].to_string(),
        ship_weight: fields[2].to_string(),
        shipping_method: fields[3].to_string(),
        label_cost: fields[4].to_string(),
        packaging_cost: fields[5].to_string(),
        labor_cost: fields[6].to_string(),
    }
}

fn amount(text: &str) -> f32 {
    text.parse::<f32>().expect("a numeral")
}

fn shipping_cost(order: &Order) -> f32 {
    amount(&order.labor_cost) + amount(&order.label_cost) + amount(&order.packaging_cost)
}

fn shipping_cost_per_pound(order: &Order) -> f32 {
    shipping_cost(order) / amount(&order.weight)
}

#[test]
fn a_row_in_normal_form() {
    let input = row(["10016-1234", "80.5", "3.2", "FedEx Ground", "7.25", "1.5", "2"]);
    let order = Order::new_from_csv(&input).expect("accepted");
    assert_eq!(order.region, Region::Northeast);
    assert_eq!(order.shipping_method, ShippingMethod::Ground);
    assert_eq!(order.ship_weight, WeightRange::Between2And5Lbs);
    assert_eq!(order.weight, "3.2");
    assert_eq!(order.retail_value, "80.5");
    assert_eq!(order.label_cost, "7.25");
    assert_eq!(order.packaging_cost, "1.5");
    assert_eq!(order.labor_cost, "2");
    assert_eq!(amount(&order.retail_value), 80.5);
    assert_eq!(shipping_cost(&order), 10.75);
    assert_eq!(shipping_cost_per_pound(&order), 10.75 / 3.2);
}

#[test]
fn a_weight_that_is_no_numeral_rejects_the_row() {
    for weight in ["", "abc", "2 lbs", "1,5", " 2", "2e", "."] {
        let input = row(["10016", "80", weight, "FedEx Ground", "7", "1", "2"]);
        assert!(Order::new_from_csv(&input).is_none(), "{:?}", weight);
    }
}

#[test]
fn a_weight_of_zero_does_not_reject_the_row() {
    let input = row(["10016", "80", "0", "FedEx Ground", "7", "1", "2"]);
    let order = Order::new_from_csv(&input).expect("accepted");
    assert_eq!(order.ship_weight, WeightRange::Under2Lbs);
    assert_eq!(order.weight, "0");
    assert!(!shipping_cost_per_pound(&order).is_finite());
    assert_eq!(shipping_cost_per_pound(&order), f32::INFINITY);
    let free = row(["10016", "80", "0", "FedEx Ground", "0", "0", "0"]);
    let order = Order::new_from_csv(&free).expect("accepted");
    assert!(shipping_cost_per_pound(&order).is_nan());
}

#[test]
fn amounts_that_are_no_numerals_count_as_zero() {
    let input = row(["10016", "n/a", "1", "FedEx Ground", "", "$3", "2.5"]);
    let order = Order::new_from_csv(&input).expect("accepted");
    assert_eq!(order.retail_value, "0");
    assert_eq!(order.label_cost, "0");
    assert_eq!(order.packaging_cost, "0");
    assert_eq!(order.labor_cost, "2.5");
    assert_eq!(amount(&order.retail_value), 0.0);
    assert_eq!(shipping_cost(&order), 2.5);
    assert_eq!(shipping_cost_per_pound(&order), 2.5);
}

#[test]
fn zip_and_carrier_fall_back() {
    let input = row(["", "10", "6", "Pony Express", "1", "1", "1"]);
    let order = Order::new_from_csv(&input).expect("accepted");
    assert_eq!(order.region, Region::International);
    assert_eq!(order.shipping_method, ShippingMethod::Unknown);
    assert_eq!(order.ship_weight, WeightRange::Over5Lbs);
}

#[test]
fn no_order_has_the_region_all_or_an_unknown_weight() {
    for zip in ["", "10016", "96815", "99701", "00907", "xyz", "20000"] {
        for weight in ["0", "1.5", "2", "5", "nan", "inf", "-1"] {
            let input = row([zip, "1", weight, "UPS SurePost", "1", "1", "1"]);
            let order = Order::new_from_csv(&input).expect("accepted");
            assert_ne!(order.region, Region::All);
            assert_ne!(order.ship_weight, WeightRange::Unknown);
        }
    }
}

#[test]
fn rows_are_parted_in_order() {
    let rows = vec![
        row(["10016", "10", "1", "FedEx Ground", "1", "1", "1"]),
        row(["10017", "10", "heavy", "FedEx Ground", "1", "1", "1"]),
        row(["96815", "10", "7", "UPS SurePost", "1", "1", "1"]),
        row(["10018", "10", "", "FedEx Ground", "1", "1", "1"]),
        row(["", "x", "2.5", "", "x", "x", "x"]),
    ];
    let (orders, errors) = normalize_rows(&rows);
    assert_eq!(orders.len(), 3);
    assert_eq!(errors.len(), 2);
    assert_eq!(orders[0].region, Region::Northeast);
    assert_eq!(orders[0].weight, "1");
    assert_eq!(orders[1].region, Region::Hawaii);
    assert_eq!(orders[1].ship_weight, WeightRange::Over5Lbs);
    assert_eq!(orders[2].region, Region::International);
    assert_eq!(orders[2].retail_value, "0");
    assert_eq!(errors[0].zip, "10017");
    assert_eq!(errors[0].ship_weight, "heavy");
    assert_eq!(errors[1].zip, "10018");
    assert_eq!(errors[1].ship_weight, "");
    assert_eq!(errors[1].shipping_method, "FedEx Ground");
}

#[test]
fn no_rows_no_orders() {
    let (orders, errors) = normalize_rows(&Vec::new());
    assert!(orders.is_empty());
    assert!(errors.is_empty());
}

#[test]
fn a_copy_of_a_row() {
    let input = row(["a", "b", "c", "d", "e", "f", "g"]);
    let copy = input.copy();
    assert_eq!(copy.zip, "a");
    assert_eq!(copy.retail_value, "b");
    assert_eq!(copy.ship_weight, "c");
    assert_eq!(copy.shipping_method, "d");
    assert_eq!(copy.label_cost, "e");
    assert_eq!(copy.packaging_cost, "f");
    assert_eq!(copy.labor_cost, "g");
}

fn headers(names: &[&str]) -> Vec<String> {
    names.iter().map(|s| s.to_string()).collect()
}

const TITLES: [&str; 7] = [
    "Recipient Zip",
    "Retail Value (Ref)",
    "Weight of Units Shipped (lbs)",
    "Carrier Service",
    "Label (Carrier) Spend",
    "Material (Packaging) Spend",
    "Labor (Pick/Pack) Spend",
];

#[test]
fn columns_are_found_by_their_headers() {
    let columns = Columns::resolve(&headers(&TITLES)).expect("all seven");
    assert_eq!(
        columns,
        Columns {
            zip: 0,
            retail_value: 1,
            ship_weight: 2,
            shipping_method: 3,
            label_cost: 4,
            packaging_cost: 5,
            labor_cost: 6,
        }
    );
    let shuffled = headers(&[
        "Order Id",
        "Labor (Pick/Pack) Spend",
        "Carrier Service",
        "Label (Carrier) Spend",
        "Notes",
        "Weight of Units Shipped (lbs)",
        "Material (Packaging) Spend",
        "Retail Value (Ref)",
        "Recipient Zip",
    ]);
    let columns = Columns::resolve(&shuffled).expect("all seven");
    assert_eq!(
        columns,
        Columns {
            zip: 8,
            retail_value: 7,
            ship_weight: 5,
            shipping_method: 2,
            label_cost: 3,
            packaging_cost: 6,
            labor_cost: 1,
        }
    );
}

#[test]
fn the_last_of_two_equal_headers_counts() {
    let mut names = TITLES.to_vec();
    names.push("Recipient Zip");
    let columns = Columns::resolve(&headers(&names)).expect("all seven");
    assert_eq!(columns.zip, 7);
    assert_eq!(columns.retail_value, 1);
}

#[test]
fn a_missing_header_is_an_error() {
    assert_eq!(
        Columns::resolve(&headers(&[])),
        Err(MissingHeader { column: Column::Zip })
    );
    let wanted = [
        (0, Column::Zip),
        (2, Column::ShipWeight),
        (3, Column::ShippingMethod),
        (4, Column::LabelCost),
        (5, Column::PackagingCost),
        (6, Column::LaborCost),
        (1, Column::RetailValue),
    ];
    for (at, column) in wanted {
        let mut names = TITLES.to_vec();
        names[at] = "Something Else";
        assert_eq!(Columns::resolve(&headers(&names)), Err(MissingHeader { column }));
    }
    let mut names = TITLES.to_vec();
    names[1] = "retail value (ref)";
    names[6] = "Labor (Pick/Pack) Spend ";
    assert_eq!(
        Columns::resolve(&headers(&names)),
        Err(MissingHeader { column: Column::LaborCost })
    );
}

#[test]
fn a_record_becomes_a_row() {
    let columns = Columns {
        zip: 2,
        retail_value: 0,
        ship_weight: 1,
        shipping_method: 3,
        label_cost: 4,
        packaging_cost: 9,
        labor_cost: 5,
    };
    let record = headers(&["80", "3.2", "10016", "FedEx Ground", "7.25", "2"]);
    let row = columns.row(&record).expect("long enough");
    assert_eq!(row.zip, "10016");
    assert_eq!(row.retail_value, "80");
    assert_eq!(row.ship_weight, "3.2");
    assert_eq!(row.shipping_method, "FedEx Ground");
    assert_eq!(row.label_cost, "7.25");
    assert_eq!(row.packaging_cost, "");
    assert_eq!(row.labor_cost, "2");
    assert!(columns.row(&headers(&["80", "3.2", "10016"])).is_none());
    assert!(columns.row(&headers(&[])).is_none());
}
