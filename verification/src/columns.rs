use vstd::prelude::*;
use crate::order::OrderFromCSVInput;
use crate::text::{chars_of, same_text};

verus! {

/// A column that the source table must have.
#[derive(Clone, Copy, Debug, PartialEq, Eq, Structural)]
pub enum Column {
    Zip,
    RetailValue,
    ShipWeight,
    ShippingMethod,
    LabelCost,
    PackagingCost,
    LaborCost,
}

/// The header under which a column stands in the source table.
pub open spec fn column_title(column: Column) -> Seq<char> {
    match column {
        Column::Zip => "Recipient Zip"@,
        Column::RetailValue => "Retail Value (Ref)"@,
        Column::ShipWeight => "Weight of Units Shipped (lbs)"@,
        Column::ShippingMethod => "Carrier Service"@,
        Column::LabelCost => "Label (Carrier) Spend"@,
        Column::PackagingCost => "Material (Packaging) Spend"@,
        Column::LaborCost => "Labor (Pick/Pack) Spend"@,
    }
}

/// Where each of the seven columns stands in a record.
#[derive(Clone, Copy, Debug, PartialEq, Eq, Structural)]
pub struct Columns {
    pub zip: usize,
    pub retail_value: usize,
    pub ship_weight: usize,
    pub shipping_method: usize,
    pub label_cost: usize,
    pub packaging_cost: usize,
    pub labor_cost: usize,
}

/// The source table lacks a column.
#[derive(Clone, Copy, Debug, PartialEq, Eq, Structural)]
pub struct MissingHeader {
    pub column: Column,
}

/// Where `title` stands among the headers: at its last place, if it stands
/// there more than once.
pub open spec fn last_position(headers: Seq<String>, title: Seq<char>) -> Option<usize>
    decreases headers.len(),
{
    if headers.len() == 0 {
        None
    } else if headers.last()@ == title {
        Some((headers.len() - 1) as usize)
    } else {
        last_position(headers.drop_last(), title)
    }
}

pub open spec fn place(headers: Seq<String>, column: Column) -> Option<usize> {
    last_position(headers, column_title(column))
}

/// The columns in the order in which they are looked for.
pub open spec fn wanted() -> Seq<Column> {
    seq![
        Column::Zip,
        Column::ShipWeight,
        Column::ShippingMethod,
        Column::LabelCost,
        Column::PackagingCost,
        Column::LaborCost,
        Column::RetailValue,
    ]
}

/// The first wanted column at or after `from` that the headers lack.
pub open spec fn first_missing(headers: Seq<String>, from: int) -> Option<Column>
    decreases wanted().len() - from,
{
    if from < 0 || from >= wanted().len() {
        None
    } else if place(headers, wanted()[from]) is None {
        Some(wanted()[from])
    } else {
        first_missing(headers, from + 1)
    }
}

impl Columns {
    /// Whether these are the places of the seven columns among `headers`.
    pub open spec fn are_places_in(&self, headers: Seq<String>) -> bool {
        &&& place(headers, Column::Zip) == Some(self.zip)
        &&& place(headers, Column::RetailValue) == Some(self.retail_value)
        &&& place(headers, Column::ShipWeight) == Some(self.ship_weight)
        &&& place(headers, Column::ShippingMethod) == Some(self.shipping_method)
        &&& place(headers, Column::LabelCost) == Some(self.label_cost)
        &&& place(headers, Column::PackagingCost) == Some(self.packaging_cost)
        &&& place(headers, Column::LaborCost) == Some(self.labor_cost)
    }

    /// Finds the seven columns among the headers of a table. All seven
    /// must be there: the first that is not is the error.
    pub fn resolve(headers: &Vec<String>) -> (r: Result<Columns, MissingHeader>)
        ensures
            match r {
                Ok(columns) => columns.are_places_in(headers@) && first_missing(headers@, 0)
                    is None,
                Err(missing) => first_missing(headers@, 0) == Some(missing.column),
            },
    {
        proof {
            reveal_with_fuel(first_missing, 8);
        }
        let zip = match find_last(headers, "Recipient Zip") {
            Some(at) => at,
            None => { return Err(MissingHeader { column: Column::Zip }); },
        };
        let ship_weight = match find_last(headers, "Weight of Units Shipped (lbs)") {
            Some(at) => at,
            None => { return Err(MissingHeader { column: Column::ShipWeight }); },
        };
        let shipping_method = match find_last(headers, "Carrier Service") {
            Some(at) => at,
            None => { return Err(MissingHeader { column: Column::ShippingMethod }); },
        };
        let label_cost = match find_last(headers, "Label (Carrier) Spend") {
            Some(at) => at,
            None => { return Err(MissingHeader { column: Column::LabelCost }); },
        };
        let packaging_cost = match find_last(headers, "Material (Packaging) Spend") {
            Some(at) => at,
            None => { return Err(MissingHeader { column: Column::PackagingCost }); },
        };
        let labor_cost = match find_last(headers, "Labor (Pick/Pack) Spend") {
            Some(at) => at,
            None => { return Err(MissingHeader { column: Column::LaborCost }); },
        };
        let retail_value = match find_last(headers, "Retail Value (Ref)") {
            Some(at) => at,
            None => { return Err(MissingHeader { column: Column::RetailValue }); },
        };
        Ok(
            Columns {
                zip,
                retail_value,
                ship_weight,
                shipping_method,
                label_cost,
                packaging_cost,
                labor_cost,
            },
        )
    }

    /// Takes the seven fields of an order out of a record. The zip, the
    /// weight and the carrier service must be there; an amount that the
    /// record is too short for is empty.
    pub fn row(&self, record: &Vec<String>) -> (r: Option<OrderFromCSVInput>)
        ensures
            r is Some <==> self.zip < record.len() && self.ship_weight < record.len()
                && self.shipping_method < record.len(),
            r matches Some(row) ==> {
                &&& row.zip@ == record@[self.zip as int]@
                &&& row.ship_weight@ == record@[self.ship_weight as int]@
                &&& row.shipping_method@ == record@[self.shipping_method as int]@
                &&& row.retail_value@ == field_or_empty(record@, self.retail_value)
                &&& row.label_cost@ == field_or_empty(record@, self.label_cost)
                &&& row.packaging_cost@ == field_or_empty(record@, self.packaging_cost)
                &&& row.labor_cost@ == field_or_empty(record@, self.labor_cost)
            },
    {
        if self.zip >= record.len() || self.ship_weight >= record.len() || self.shipping_method
            >= record.len() {
            return None;
        }
        Some(
            OrderFromCSVInput {
                zip: record[self.zip].clone(),
                retail_value: field(record, self.retail_value),
                ship_weight: record[self.ship_weight].clone(),
                shipping_method: record[self.shipping_method].clone(),
                label_cost: field(record, self.label_cost),
                packaging_cost: field(record, self.packaging_cost),
                labor_cost: field(record, self.labor_cost),
            },
        )
    }
}

/// The field at a place of a record; the empty text where the record ends
/// before it.
pub open spec fn field_or_empty(record: Seq<String>, at: usize) -> Seq<char> {
    if at < record.len() {
        record[at as int]@
    } else {
        Seq::empty()
    }
}

fn field(record: &Vec<String>, at: usize) -> (r: String)
    ensures
        r@ == field_or_empty(record@, at),
{
    if at < record.len() {
        record[at].clone()
    } else {
        String::new()
    }
}

fn find_last(headers: &Vec<String>, title: &str) -> (r: Option<usize>)
    ensures
        r == last_position(headers@, title@),
{
    let mut found: Option<usize> = None;
    let mut i: usize = 0;
    proof {
        assert(headers@.take(0) =~= Seq::<String>::empty());
    }
    while i < headers.len()
        invariant
            i <= headers.len(),
            found == last_position(headers@.take(i as int), title@),
        decreases headers.len() - i,
    {
        proof {
            assert(headers@.take(i + 1).drop_last() =~= headers@.take(i as int));
            assert(headers@.take(i + 1).last() == headers@[i as int]);
        }
        let header = chars_of(headers[i].as_str());
        if same_text(&header, title) {
            found = Some(i);
        }
        i = i + 1;
    }
    proof {
        assert(headers@.take(i as int) =~= headers@);
    }
    found
}

} // verus!
