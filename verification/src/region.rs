use vstd::prelude::*;
use crate::zip::{province_of_zip, zip_as_u32, zip_number, Province};

verus! {

/// Where an order goes: one of twelve destination regions, or `All`, the key
/// under which the regions of the continental rollup are summed. No single
/// order has the region `All`.
#[derive(Clone, Copy, Debug, PartialEq, Eq, Structural, Hash)]
pub enum Region {
    All,
    Northeast,
    MidAtlantic,
    Southeast,
    Midwest,
    GreatPlains,
    Southwest,
    Mountain,
    WestCoast,
    PuertoRico,
    Hawaii,
    Alaska,
    International,
}

/// The region that a province lies in.
pub open spec fn region_of_province(province: Province) -> Region {
    match province {
        Province::ME | Province::NH | Province::VT | Province::MA | Province::RI
        | Province::CT | Province::NY | Province::NJ | Province::PA => Region::Northeast,
        Province::DC | Province::DE | Province::MD | Province::VA | Province::WV
        | Province::NC => Region::MidAtlantic,
        Province::KY | Province::LA | Province::AR | Province::SC | Province::GA
        | Province::FL | Province::AL | Province::MS | Province::TN => Region::Southeast,
        Province::OH | Province::MI | Province::IN | Province::IL | Province::WI
        | Province::MN | Province::IA | Province::MO => Region::Midwest,
        Province::ND | Province::SD | Province::NE | Province::KS | Province::OK => {
            Region::GreatPlains
        },
        Province::TX | Province::NM | Province::AZ => Region::Southwest,
        Province::CO | Province::WY | Province::MT | Province::ID | Province::UT
        | Province::NV => Region::Mountain,
        Province::CA | Province::OR | Province::WA => Region::WestCoast,
        Province::PR => Region::PuertoRico,
        Province::HI => Region::Hawaii,
        Province::AK => Region::Alaska,
    }
}

/// The region of a zip text: that of the province of its zip code, and
/// `International` where the text holds no zip code or the zip table has
/// no row for it.
pub open spec fn region_of_zip_text(s: Seq<char>) -> Region {
    match zip_number(s) {
        Ok(zip) => match province_of_zip(zip) {
            Some(province) => region_of_province(province),
            None => Region::International,
        },
        Err(_) => Region::International,
    }
}

/// The name under which a region is shown.
pub open spec fn region_name(region: Region) -> Seq<char> {
    match region {
        Region::Northeast => "Northeast"@,
        Region::MidAtlantic => "Mid-Atlantic"@,
        Region::Southeast => "Southeast"@,
        Region::Midwest => "Midwest"@,
        Region::GreatPlains => "Great Plains"@,
        Region::Southwest => "Southwest"@,
        Region::Mountain => "Mountain"@,
        Region::WestCoast => "West Coast"@,
        Region::PuertoRico => "Puerto Rico"@,
        Region::Hawaii => "Hawaii"@,
        Region::Alaska => "Alaska"@,
        Region::International => "International"@,
        Region::All => "All Regions"@,
    }
}

impl Region {
    /// Resolves a zip text to its region. A text that cannot be resolved
    /// counts as `International`; nothing makes this fail.
    pub fn from_string_zip(zip_string: &str) -> (region: Region)
        ensures
            region == region_of_zip_text(zip_string@),
            region != Region::All,
    {
        match zip_as_u32(zip_string) {
            Ok(zip) => match Province::from_zip_code(zip) {
                Ok(province) => Region::from_province(province),
                Err(_) => Region::International,
            },
            Err(_) => Region::International,
        }
    }

    pub fn from_province(province: Province) -> (region: Region)
        ensures
            region == region_of_province(province),
            region != Region::All,
            region != Region::International,
    {
        match province {
            Province::ME | Province::NH | Province::VT | Province::MA | Province::RI
            | Province::CT | Province::NY | Province::NJ | Province::PA => Region::Northeast,
            Province::DC | Province::DE | Province::MD | Province::VA | Province::WV
            | Province::NC => Region::MidAtlantic,
            Province::KY | Province::LA | Province::AR | Province::SC | Province::GA
            | Province::FL | Province::AL | Province::MS | Province::TN => Region::Southeast,
            Province::OH | Province::MI | Province::IN | Province::IL | Province::WI
            | Province::MN | Province::IA | Province::MO => Region::Midwest,
            Province::ND | Province::SD | Province::NE | Province::KS | Province::OK => {
                Region::GreatPlains
            },
            Province::TX | Province::NM | Province::AZ => Region::Southwest,
            Province::CO | Province::WY | Province::MT | Province::ID | Province::UT
            | Province::NV => Region::Mountain,
            Province::CA | Province::OR | Province::WA => Region::WestCoast,
            Province::PR => Region::PuertoRico,
            Province::HI => Region::Hawaii,
            Province::AK => Region::Alaska,
        }
    }

    pub fn name(&self) -> (name: String)
        ensures
            name@ == region_name(*self),
    {
        match self {
            Region::Northeast => "Northeast".to_owned(),
            Region::MidAtlantic => "Mid-Atlantic".to_owned(),
            Region::Southeast => "Southeast".to_owned(),
            Region::Midwest => "Midwest".to_owned(),
            Region::GreatPlains => "Great Plains".to_owned(),
            Region::Southwest => "Southwest".to_owned(),
            Region::Mountain => "Mountain".to_owned(),
            Region::WestCoast => "West Coast".to_owned(),
            Region::PuertoRico => "Puerto Rico".to_owned(),
            Region::Hawaii => "Hawaii".to_owned(),
            Region::Alaska => "Alaska".to_owned(),
            Region::International => "International".to_owned(),
            Region::All => "All Regions".to_owned(),
        }
    }
}

/// A zip text that cannot be resolved, for want of a zip code or of a row
/// for it in the zip table, has the region `International`, never a domestic
/// one; and no zip text at all has the region `All`.
pub proof fn lemma_unresolved_zip_is_international(s: Seq<char>)
    ensures
        zip_number(s) is Err ==> region_of_zip_text(s) == Region::International,
        zip_number(s) matches Ok(zip) && province_of_zip(zip) is None ==> region_of_zip_text(s)
            == Region::International,
        region_of_zip_text(s) != Region::All,
{
}

/// Every domestic region is the region of some province, and no province
/// lies in `All` or in `International`.
pub proof fn lemma_every_domestic_region_has_a_province(region: Region)
    requires
        region != Region::All,
        region != Region::International,
    ensures
        exists|province: Province| region_of_province(province) == region,
        forall|province: Province|
            #[trigger] region_of_province(province) != Region::All && region_of_province(province)
                != Region::International,
{
    match region {
        Region::Northeast => assert(region_of_province(Province::NY) == region),
        Region::MidAtlantic => assert(region_of_province(Province::DC) == region),
        Region::Southeast => assert(region_of_province(Province::FL) == region),
        Region::Midwest => assert(region_of_province(Province::OH) == region),
        Region::GreatPlains => assert(region_of_province(Province::KS) == region),
        Region::Southwest => assert(region_of_province(Province::TX) == region),
        Region::Mountain => assert(region_of_province(Province::CO) == region),
        Region::WestCoast => assert(region_of_province(Province::CA) == region),
        Region::PuertoRico => assert(region_of_province(Province::PR) == region),
        Region::Hawaii => assert(region_of_province(Province::HI) == region),
        Region::Alaska => assert(region_of_province(Province::AK) == region),
        _ => {},
    }
}

} // verus!
