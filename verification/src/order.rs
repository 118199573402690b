use vstd::prelude::*;
use crate::method::{method_of_label, ShippingMethod};
use crate::numeral::{
    decimal_of_text, exponent_mark, fraction_part, is_number, is_numeral, unsigned_part,
    whole_part,
};
use crate::region::{region_of_zip_text, Region};
use crate::text::position_of;
use crate::weight::{weight_range_of_text, WeightRange};

verus! {

/// One row of the source table, as text: the seven fields of an order.
#[derive(Debug)]
pub struct OrderFromCSVInput {
    pub zip: String,
    pub retail_value: String,
    pub ship_weight: String,
    pub shipping_method: String,
    pub label_cost: String,
    pub packaging_cost: String,
    pub labor_cost: String,
}

/// An order in normal form: its three classes, and its amounts as
/// numerals. The shipping cost of an order is the sum of its label,
/// packaging and labor cost; its shipping cost per pound is that sum
/// divided by `weight`.
#[derive(Debug)]
pub struct Order {
    pub ship_weight: WeightRange,
    pub shipping_method: ShippingMethod,
    pub region: Region,
    pub weight: String,
    pub retail_value: String,
    pub label_cost: String,
    pub packaging_cost: String,
    pub labor_cost: String,
}

/// An amount as it counts: the text itself where it is a numeral, and zero
/// where it is not.
pub open spec fn numeral_or_zero(s: Seq<char>) -> Seq<char> {
    if is_numeral(s) {
        s
    } else {
        "0"@
    }
}

/// Whether a row is accepted: it is, if and only if its weight is a numeral.
/// No other field can make a row fail.
pub open spec fn accepts(row: OrderFromCSVInput) -> bool {
    is_numeral(row.ship_weight@)
}

impl OrderFromCSVInput {
    /// A copy, field for field.
    pub fn copy(&self) -> (row: OrderFromCSVInput)
        ensures
            row == *self,
    {
        OrderFromCSVInput {
            zip: self.zip.clone(),
            retail_value: self.retail_value.clone(),
            ship_weight: self.ship_weight.clone(),
            shipping_method: self.shipping_method.clone(),
            label_cost: self.label_cost.clone(),
            packaging_cost: self.packaging_cost.clone(),
            labor_cost: self.labor_cost.clone(),
        }
    }
}

impl Order {
    /// The amounts of an order are numerals, and its weight has a class.
    pub open spec fn wf(&self) -> bool {
        &&& is_numeral(self.weight@)
        &&& is_numeral(self.retail_value@)
        &&& is_numeral(self.label_cost@)
        &&& is_numeral(self.packaging_cost@)
        &&& is_numeral(self.labor_cost@)
        &&& self.ship_weight == weight_range_of_text(self.weight@)
        &&& self.ship_weight != WeightRange::Unknown
        &&& self.region != Region::All
    }

    /// Whether this order is the normal form of `row`.
    pub open spec fn is_normal_form_of(&self, row: OrderFromCSVInput) -> bool {
        &&& self.ship_weight == weight_range_of_text(row.ship_weight@)
        &&& self.shipping_method == method_of_label(row.shipping_method@)
        &&& self.region == region_of_zip_text(row.zip@)
        &&& self.weight@ == row.ship_weight@
        &&& self.retail_value@ == numeral_or_zero(row.retail_value@)
        &&& self.label_cost@ == numeral_or_zero(row.label_cost@)
        &&& self.packaging_cost@ == numeral_or_zero(row.packaging_cost@)
        &&& self.labor_cost@ == numeral_or_zero(row.labor_cost@)
    }

    /// Brings a row into normal form. The row is rejected if and only if
    /// its weight is no numeral; a weight of zero is a numeral. A zip that
    /// cannot be resolved, a carrier service that is not known, and an
    /// amount that is no numeral each fall back to their default.
    pub fn new_from_csv(input: &OrderFromCSVInput) -> (r: Option<Order>)
        ensures
            r is Some <==> accepts(*input),
            r matches Some(order) ==> order.is_normal_form_of(*input) && order.wf(),
    {
        if !is_number(input.ship_weight.as_str()) {
            return None;
        }
        let ship_weight = WeightRange::from_str(input.ship_weight.as_str());
        let region = Region::from_string_zip(input.zip.as_str());
        let shipping_method = ShippingMethod::from_str(input.shipping_method.as_str());
        Some(
            Order {
                ship_weight,
                shipping_method,
                region,
                weight: input.ship_weight.clone(),
                retail_value: amount(&input.retail_value),
                label_cost: amount(&input.label_cost),
                packaging_cost: amount(&input.packaging_cost),
                labor_cost: amount(&input.labor_cost),
            },
        )
    }
}

fn amount(text: &String) -> (r: String)
    ensures
        r@ == numeral_or_zero(text@),
        is_numeral(r@),
{
    if is_number(text.as_str()) {
        text.clone()
    } else {
        proof {
            lemma_zero_is_a_numeral();
        }
        "0".to_owned()
    }
}

/// The text `0` is a numeral.
pub proof fn lemma_zero_is_a_numeral()
    ensures
        is_numeral("0"@),
{
    reveal_strlit("0");
    reveal_strlit("inf");
    reveal_strlit("infinity");
    reveal_strlit("nan");
    let s = "0"@;
    assert(unsigned_part(s) == s);
    assert(exponent_mark(s, 0) == 1) by {
        reveal_with_fuel(exponent_mark, 3);
    }
    assert(s.take(1) =~= s);
    assert(position_of(s, '.', 0) == 1) by {
        reveal_with_fuel(position_of, 3);
    }
    assert(whole_part(s) =~= s);
    assert(fraction_part(s) =~= Seq::<char>::empty());
    assert(decimal_of_text(s) is Some);
}

/// Brings the rows of a table into normal form: the orders of the accepted
/// rows, and the rejected rows as they came, both in the order of the table.
pub fn normalize_rows(rows: &Vec<OrderFromCSVInput>) -> (r: (Vec<Order>, Vec<OrderFromCSVInput>))
    ensures
        r.1@ == rows@.filter(|row: OrderFromCSVInput| !accepts(row)),
        r.0@.len() == rows@.filter(|row: OrderFromCSVInput| accepts(row)).len(),
        forall|j: int|
            0 <= j < r.0@.len() ==> (#[trigger] r.0@[j]).wf() && r.0@[j].is_normal_form_of(
                rows@.filter(|row: OrderFromCSVInput| accepts(row))[j],
            ),
{
    let mut orders: Vec<Order> = Vec::new();
    let mut errors: Vec<OrderFromCSVInput> = Vec::new();
    let ghost taken = |row: OrderFromCSVInput| accepts(row);
    let ghost left = |row: OrderFromCSVInput| !accepts(row);
    let mut i: usize = 0;
    proof {
        reveal(Seq::filter);
        assert(rows@.take(0) =~= Seq::<OrderFromCSVInput>::empty());
    }
    while i < rows.len()
        invariant
            i <= rows.len(),
            taken == |row: OrderFromCSVInput| accepts(row),
            left == |row: OrderFromCSVInput| !accepts(row),
            errors@ == rows@.take(i as int).filter(left),
            orders@.len() == rows@.take(i as int).filter(taken).len(),
            forall|j: int|
                0 <= j < orders@.len() ==> (#[trigger] orders@[j]).wf()
                    && orders@[j].is_normal_form_of(rows@.take(i as int).filter(taken)[j]),
        decreases rows.len() - i,
    {
        let ghost before = rows@.take(i as int);
        let ghost now = rows@.take(i + 1);
        proof {
            reveal(Seq::filter);
            assert(now.drop_last() =~= before);
            assert(now.last() == rows@[i as int]);
        }
        match Order::new_from_csv(&rows[i]) {
            Some(order) => {
                orders.push(order);
                proof {
                    assert(now.filter(taken) == before.filter(taken).push(rows@[i as int]));
                    assert(now.filter(left) == before.filter(left));
                }
            },
            None => {
                errors.push(rows[i].copy());
                proof {
                    assert(now.filter(taken) == before.filter(taken));
                    assert(now.filter(left) == before.filter(left).push(rows@[i as int]));
                }
            },
        }
        i = i + 1;
    }
    proof {
        assert(rows@.take(i as int) =~= rows@);
    }
    (orders, errors)
}

} // verus!
