use vstd::prelude::*;
use crate::text::{chars_of, same_text};

verus! {

/// How fast, and how, a carrier service delivers.
#[derive(Clone, Copy, Debug, PartialEq, Eq, Structural, Hash)]
pub enum ShippingMethod {
    Economy,
    Ground,
    Express,
    Expedited,
    Priority,
    Special,
    Unknown,
}

pub open spec fn service(label: Seq<char>, method: ShippingMethod) -> (Seq<char>, ShippingMethod) {
    (label, method)
}

/// The carrier services known by name, each with its method. A label counts
/// letter for letter: capitals and blanks are not folded, so two labels that
/// differ in case only are two rows.
pub open spec fn carrier_services() -> Seq<(Seq<char>, ShippingMethod)> {
    seq![
        service("UPS Worldwide Saver (Duties Not Paid)"@, ShippingMethod::Economy),
        service("UPS SurePost"@, ShippingMethod::Economy),
        service("UPS SUREPOST"@, ShippingMethod::Economy),
        service("DHL International (Duties Not Paid)"@, ShippingMethod::Economy),
        service("DHL International [Route Protection Highly Recommended Not Responsible For Lost Shipment]"@, ShippingMethod::Economy),
        service("USPS First-Class Mail [Order Protection Highly Recommended Not Responsible For Lost Shipment]"@, ShippingMethod::Economy),
        service("USPS First-Class Mail"@, ShippingMethod::Economy),
        service("DHL eCommerce Ground"@, ShippingMethod::Economy),
        service("USPS Parcel Post"@, ShippingMethod::Economy),
        service("UPS Ground [RESA]"@, ShippingMethod::Ground),
        service("FedEx Home Delivery"@, ShippingMethod::Ground),
        service("FedEx Ground"@, ShippingMethod::Ground),
        service("Upgrade to (3-5 Day) DHL Expedited"@, ShippingMethod::Ground),
        service("UPS Next Day Air Saver"@, ShippingMethod::Expedited),
        service("FedEx Standard Overnight [RESA]"@, ShippingMethod::Expedited),
        service("FedEx Priority Overnight"@, ShippingMethod::Expedited),
        service("FedEx Standard Overnight (Envelope)"@, ShippingMethod::Expedited),
        service("USPS Express Mail"@, ShippingMethod::Expedited),
        service("FedEx Standard Overnight"@, ShippingMethod::Expedited),
        service("UPS Worldwide Express (Duties Not Paid)"@, ShippingMethod::Express),
        service("FedEx One Rate (Pak) 2-Day [RESA]"@, ShippingMethod::Express),
        service("FedEx One Rate (Envelope) 2-Day [RESA]"@, ShippingMethod::Express),
        service("UPS 2nd Day Air"@, ShippingMethod::Express),
        service("FedEx 2nd Day [RESA]"@, ShippingMethod::Express),
        service("USPS Priority Mail"@, ShippingMethod::Express),
        service("FedEx Intl Priority (Envelope) (Duties Not Paid)"@, ShippingMethod::Priority),
        service("USPS Priority Mail International (Duties Not Paid)"@, ShippingMethod::Priority),
        service("FedEx Intl Connect Plus (Duties Not Paid) [RESA]"@, ShippingMethod::Priority),
        service("FedEx 2nd Day"@, ShippingMethod::Priority),
        service("FedEx International Priority (Duties Not Paid)"@, ShippingMethod::Priority),
        service("fedex overnight"@, ShippingMethod::Priority),
        service("FEDEX overnight"@, ShippingMethod::Priority),
        service("FedEx One Rate (Pak) 2-Day [RESA JEWELRY]"@, ShippingMethod::Special),
        service("Misc Transfer Carrier"@, ShippingMethod::Special),
        service("USPS"@, ShippingMethod::Unknown),
        service("fedex"@, ShippingMethod::Unknown),
        service("FEDEX"@, ShippingMethod::Unknown),
        service("ups"@, ShippingMethod::Unknown),
        service("UPS"@, ShippingMethod::Unknown),
        service("usps"@, ShippingMethod::Unknown),
        service("FEDEx"@, ShippingMethod::Unknown),
    ]
}

/// The method of the first row at or after `from` whose label is `label`;
/// `Unknown` if there is none.
pub open spec fn first_service(
    table: Seq<(Seq<char>, ShippingMethod)>,
    label: Seq<char>,
    from: int,
) -> ShippingMethod
    decreases table.len() - from,
{
    if from < 0 || from >= table.len() {
        ShippingMethod::Unknown
    } else if table[from].0 == label {
        table[from].1
    } else {
        first_service(table, label, from + 1)
    }
}

/// The method of a carrier service label.
pub open spec fn method_of_label(label: Seq<char>) -> ShippingMethod {
    first_service(carrier_services(), label, 0)
}

/// The name under which a method is shown.
pub open spec fn method_name(method: ShippingMethod) -> Seq<char> {
    match method {
        ShippingMethod::Economy => "Economy"@,
        ShippingMethod::Ground => "Ground"@,
        ShippingMethod::Express => "Express"@,
        ShippingMethod::Expedited => "Expedited"@,
        ShippingMethod::Priority => "Priority"@,
        ShippingMethod::Special => "Special"@,
        ShippingMethod::Unknown => "Unknown"@,
    }
}

/// Whether the report shows a method: it shows `Economy` and `Ground` only.
pub open spec fn is_reported(method: ShippingMethod) -> bool {
    method == ShippingMethod::Economy || method == ShippingMethod::Ground
}

/// The table of carrier services as a vector, row for row.
pub fn carrier_table() -> (table: Vec<(&'static str, ShippingMethod)>)
    ensures
        table@.len() == carrier_services().len(),
        forall|i: int|
            0 <= i < table@.len() ==> (#[trigger] table@[i]).0@ == carrier_services()[i].0
                && table@[i].1 == carrier_services()[i].1,
{
    let table = vec![
        ("UPS Worldwide Saver (Duties Not Paid)", ShippingMethod::Economy),
        ("UPS SurePost", ShippingMethod::Economy),
        ("UPS SUREPOST", ShippingMethod::Economy),
        ("DHL International (Duties Not Paid)", ShippingMethod::Economy),
        ("DHL International [Route Protection Highly Recommended Not Responsible For Lost Shipment]", ShippingMethod::Economy),
        ("USPS First-Class Mail [Order Protection Highly Recommended Not Responsible For Lost Shipment]", ShippingMethod::Economy),
        ("USPS First-Class Mail", ShippingMethod::Economy),
        ("DHL eCommerce Ground", ShippingMethod::Economy),
        ("USPS Parcel Post", ShippingMethod::Economy),
        ("UPS Ground [RESA]", ShippingMethod::Ground),
        ("FedEx Home Delivery", ShippingMethod::Ground),
        ("FedEx Ground", ShippingMethod::Ground),
        ("Upgrade to (3-5 Day) DHL Expedited", ShippingMethod::Ground),
        ("UPS Next Day Air Saver", ShippingMethod::Expedited),
        ("FedEx Standard Overnight [RESA]", ShippingMethod::Expedited),
        ("FedEx Priority Overnight", ShippingMethod::Expedited),
        ("FedEx Standard Overnight (Envelope)", ShippingMethod::Expedited),
        ("USPS Express Mail", ShippingMethod::Expedited),
        ("FedEx Standard Overnight", ShippingMethod::Expedited),
        ("UPS Worldwide Express (Duties Not Paid)", ShippingMethod::Express),
        ("FedEx One Rate (Pak) 2-Day [RESA]", ShippingMethod::Express),
        ("FedEx One Rate (Envelope) 2-Day [RESA]", ShippingMethod::Express),
        ("UPS 2nd Day Air", ShippingMethod::Express),
        ("FedEx 2nd Day [RESA]", ShippingMethod::Express),
        ("USPS Priority Mail", ShippingMethod::Express),
        ("FedEx Intl Priority (Envelope) (Duties Not Paid)", ShippingMethod::Priority),
        ("USPS Priority Mail International (Duties Not Paid)", ShippingMethod::Priority),
        ("FedEx Intl Connect Plus (Duties Not Paid) [RESA]", ShippingMethod::Priority),
        ("FedEx 2nd Day", ShippingMethod::Priority),
        ("FedEx International Priority (Duties Not Paid)", ShippingMethod::Priority),
        ("fedex overnight", ShippingMethod::Priority),
        ("FEDEX overnight", ShippingMethod::Priority),
        ("FedEx One Rate (Pak) 2-Day [RESA JEWELRY]", ShippingMethod::Special),
        ("Misc Transfer Carrier", ShippingMethod::Special),
        ("USPS", ShippingMethod::Unknown),
        ("fedex", ShippingMethod::Unknown),
        ("FEDEX", ShippingMethod::Unknown),
        ("ups", ShippingMethod::Unknown),
        ("UPS", ShippingMethod::Unknown),
        ("usps", ShippingMethod::Unknown),
        ("FEDEx", ShippingMethod::Unknown),
    ];
    table
}

impl ShippingMethod {
    /// Classifies a carrier service by its label. A label that the table
    /// does not hold is `Unknown`.
    pub fn from_str(str: &str) -> (method: ShippingMethod)
        ensures
            method == method_of_label(str@),
    {
        let label = chars_of(str);
        let table = carrier_table();
        let mut i: usize = 0;
        while i < table.len()
            invariant
                i <= table.len(),
                label@ == str@,
                table@.len() == carrier_services().len(),
                forall|j: int|
                    0 <= j < table@.len() ==> (#[trigger] table@[j]).0@ == carrier_services()[j].0
                        && table@[j].1 == carrier_services()[j].1,
                method_of_label(str@) == first_service(carrier_services(), str@, i as int),
            decreases table.len() - i,
        {
            let row = table[i];
            if same_text(&label, row.0) {
                return row.1;
            }
            i = i + 1;
        }
        ShippingMethod::Unknown
    }

    pub fn name(&self) -> (name: String)
        ensures
            name@ == method_name(*self),
    {
        match self {
            ShippingMethod::Economy => "Economy".to_owned(),
            ShippingMethod::Ground => "Ground".to_owned(),
            ShippingMethod::Express => "Express".to_owned(),
            ShippingMethod::Expedited => "Expedited".to_owned(),
            ShippingMethod::Priority => "Priority".to_owned(),
            ShippingMethod::Special => "Special".to_owned(),
            ShippingMethod::Unknown => "Unknown".to_owned(),
        }
    }
}

/// Says whether the report shows a method.
pub fn report_shipping_method(shipping_method: &ShippingMethod) -> (shown: bool)
    ensures
        shown == is_reported(*shipping_method),
{
    match shipping_method {
        ShippingMethod::Economy => true,
        ShippingMethod::Ground => true,
        _ => false,
    }
}

} // verus!
