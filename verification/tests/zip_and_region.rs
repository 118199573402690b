use shipping_costs::region::Region;
use shipping_costs::zip::{zip_as_u32, zip_table, Province, ZipError};

#[test]
fn test_zip_to_region_standard() {
    let region = Region::from_string_zip("10016");
    assert_eq!(region, Region::Northeast);
}

#[test]
fn test_invalid_zips() {
    let region_1 = Region::from_string_zip("203000-");
    let region_2 = Region::from_string_zip("");
    assert!(region_1 == Region::International);
    assert!(region_2 == Region::International);
}

#[test]
fn test_split_zips() {
    let region_1 = Region::from_string_zip("20044-2932");
    let region_2 = Region::from_string_zip("95060-9412");
    assert_eq!(region_1, Region::MidAtlantic);
    assert_eq!(region_2, Region::WestCoast);
}

#[test]
fn zip_number_is_what_stands_before_the_first_hyphen() {
    assert_eq!(zip_as_u32("95060"), Ok(95060));
    assert_eq!(zip_as_u32("95060-9412"), Ok(95060));
    assert_eq!(zip_as_u32("95060-9412-1"), Ok(95060));
    assert_eq!(zip_as_u32("00601"), Ok(601));
    assert_eq!(zip_as_u32("203000-"), Ok(203000));
    assert_eq!(zip_as_u32("+123"), Ok(123));
    assert_eq!(zip_as_u32("4294967295"), Ok(4294967295));
}

#[test]
fn zip_number_errors() {
    assert_eq!(zip_as_u32(""), Err(ZipError::Empty));
    assert_eq!(zip_as_u32("-"), Err(ZipError::NotANumber));
    assert_eq!(zip_as_u32("-12345"), Err(ZipError::NotANumber));
    assert_eq!(zip_as_u32("+"), Err(ZipError::NotANumber));
    assert_eq!(zip_as_u32("abc"), Err(ZipError::NotANumber));
    assert_eq!(zip_as_u32("12a45"), Err(ZipError::NotANumber));
    assert_eq!(zip_as_u32(" 12345"), Err(ZipError::NotANumber));
    assert_eq!(zip_as_u32("12345 "), Err(ZipError::NotANumber));
    assert_eq!(zip_as_u32("1_000"), Err(ZipError::NotANumber));
    assert_eq!(zip_as_u32("4294967296"), Err(ZipError::NotANumber));
    assert_eq!(zip_as_u32("99999999999999999999999"), Err(ZipError::NotANumber));
}

#[test]
fn zip_number_agrees_with_the_standard_parser() {
    let texts = [
        "", "0", "7", "007", "+7", "++7", "-7", "+", "12345", "12345-", "4294967295",
        "4294967296", "42949672950", "x", "1x", "x1", "1.0", "1e3", "٣", "１２３",
    ];
    for text in texts {
        let prefix = text.split('-').next().unwrap_or("");
        let expected = if text.is_empty() { None } else { prefix.parse::<u32>().ok() };
        assert_eq!(zip_as_u32(text).ok(), expected, "{:?}", text);
    }
}

#[test]
fn first_matching_row_wins() {
    assert_eq!(Province::from_zip_code(20042), Ok(Province::VA));
    assert_eq!(Province::from_zip_code(20331), Ok(Province::MD));
    assert_eq!(Province::from_zip_code(20040), Ok(Province::VA));
    assert_eq!(Province::from_zip_code(20041), Ok(Province::VA));
    assert_eq!(Province::from_zip_code(20043), Ok(Province::DC));
    assert_eq!(Province::from_zip_code(20100), Ok(Province::DC));
    assert_eq!(Province::from_zip_code(20167), Ok(Province::DC));
    assert_eq!(Province::from_zip_code(20335), Ok(Province::DC));
    assert_eq!(Province::from_zip_code(20600), Ok(Province::MD));
    assert_eq!(Province::from_zip_code(96701), Ok(Province::HI));
    assert_eq!(Province::from_zip_code(96162), Ok(Province::CA));
}

#[test]
fn single_zip_rows() {
    assert_eq!(Province::from_zip_code(6390), Ok(Province::NY));
    assert_eq!(Province::from_zip_code(6389), Ok(Province::CT));
    assert_eq!(Province::from_zip_code(71233), Ok(Province::MS));
    assert_eq!(Province::from_zip_code(71232), Ok(Province::LA));
    assert_eq!(Province::from_zip_code(71234), Ok(Province::LA));
    assert_eq!(Province::from_zip_code(75502), Ok(Province::AR));
    assert_eq!(Province::from_zip_code(75501), Ok(Province::TX));
    assert_eq!(Province::from_zip_code(73301), Ok(Province::TX));
    assert_eq!(Province::from_zip_code(39901), Ok(Province::GA));
    assert_eq!(Province::from_zip_code(20799), Ok(Province::DC));
}

#[test]
fn zip_codes_without_a_row() {
    assert_eq!(Province::from_zip_code(0), Err(ZipError::Unassigned));
    assert_eq!(Province::from_zip_code(20000), Err(ZipError::Unassigned));
    assert_eq!(Province::from_zip_code(599), Err(ZipError::Unassigned));
    assert_eq!(Province::from_zip_code(800), Err(ZipError::Unassigned));
    assert_eq!(Province::from_zip_code(99951), Err(ZipError::Unassigned));
    assert_eq!(Province::from_zip_code(203000), Err(ZipError::Unassigned));
    assert_eq!(Province::from_zip_code(u32::MAX), Err(ZipError::Unassigned));
}

#[test]
fn range_ends_are_included() {
    assert_eq!(Province::from_zip_code(99501), Ok(Province::AK));
    assert_eq!(Province::from_zip_code(99950), Ok(Province::AK));
    assert_eq!(Province::from_zip_code(99500), Err(ZipError::Unassigned));
    assert_eq!(Province::from_zip_code(600), Ok(Province::PR));
    assert_eq!(Province::from_zip_code(799), Ok(Province::PR));
    assert_eq!(Province::from_zip_code(900), Ok(Province::PR));
    assert_eq!(Province::from_zip_code(999), Ok(Province::PR));
    assert_eq!(Province::from_zip_code(1001), Ok(Province::MA));
}

#[test]
fn zip_table_has_every_row() {
    let table = zip_table();
    assert_eq!(table.len(), 74);
    assert_eq!((table[0].first, table[0].last, table[0].province), (20042, 20042, Province::VA));
    assert_eq!((table[73].first, table[73].last, table[73].province), (82001, 83128, Province::WY));
    for row in &table {
        assert!(row.first <= row.last);
    }
}

#[test]
fn lookup_agrees_with_the_table_read_top_down() {
    let table = zip_table();
    for zip in (0u32..100_500).step_by(7) {
        let expected = table
            .iter()
            .find(|row| row.first <= zip && zip <= row.last)
            .map(|row| row.province);
        assert_eq!(Province::from_zip_code(zip).ok(), expected);
    }
}

#[test]
fn every_province_has_its_region() {
    let northeast = [
        Province::ME, Province::NH, Province::VT, Province::MA, Province::RI, Province::CT,
        Province::NY, Province::NJ, Province::PA,
    ];
    let mid_atlantic = [
        Province::DC, Province::DE, Province::MD, Province::VA, Province::WV, Province::NC,
    ];
    let southeast = [
        Province::KY, Province::LA, Province::AR, Province::SC, Province::GA, Province::FL,
        Province::AL, Province::MS, Province::TN,
    ];
    let midwest = [
        Province::OH, Province::MI, Province::IN, Province::IL, Province::WI, Province::MN,
        Province::IA, Province::MO,
    ];
    let great_plains = [Province::ND, Province::SD, Province::NE, Province::KS, Province::OK];
    let southwest = [Province::TX, Province::NM, Province::AZ];
    let mountain = [
        Province::CO, Province::WY, Province::MT, Province::ID, Province::UT, Province::NV,
    ];
    let west_coast = [Province::CA, Province::OR, Province::WA];
    for p in northeast {
        assert_eq!(Region::from_province(p), Region::Northeast);
    }
    for p in mid_atlantic {
        assert_eq!(Region::from_province(p), Region::MidAtlantic);
    }
    for p in southeast {
        assert_eq!(Region::from_province(p), Region::Southeast);
    }
    for p in midwest {
        assert_eq!(Region::from_province(p), Region::Midwest);
    }
    for p in great_plains {
        assert_eq!(Region::from_province(p), Region::GreatPlains);
    }
    for p in southwest {
        assert_eq!(Region::from_province(p), Region::Southwest);
    }
    for p in mountain {
        assert_eq!(Region::from_province(p), Region::Mountain);
    }
    for p in west_coast {
        assert_eq!(Region::from_province(p), Region::WestCoast);
    }
    assert_eq!(Region::from_province(Province::PR), Region::PuertoRico);
    assert_eq!(Region::from_province(Province::HI), Region::Hawaii);
    assert_eq!(Region::from_province(Province::AK), Region::Alaska);
    let count = northeast.len() + mid_atlantic.len() + southeast.len() + midwest.len()
        + great_plains.len() + southwest.len() + mountain.len() + west_coast.len() + 3;
    assert_eq!(count, 52);
}

#[test]
fn unresolved_zips_are_international() {
    for text in ["", "-", "abc", "12a45", "99999999999", "20000", "00000", "203000-", "-10016"] {
        assert_eq!(Region::from_string_zip(text), Region::International, "{:?}", text);
    }
}

#[test]
fn zips_of_the_far_regions() {
    assert_eq!(Region::from_string_zip("96815"), Region::Hawaii);
    assert_eq!(Region::from_string_zip("99701-1234"), Region::Alaska);
    assert_eq!(Region::from_string_zip("00907"), Region::PuertoRico);
    assert_eq!(Region::from_string_zip("60601"), Region::Midwest);
    assert_eq!(Region::from_string_zip("73301"), Region::Southwest);
    assert_eq!(Region::from_string_zip("68119"), Region::Midwest);
    assert_eq!(Region::from_string_zip("68121"), Region::International);
}

#[test]
fn region_names() {
    assert_eq!(Region::Northeast.name(), "Northeast");
    assert_eq!(Region::MidAtlantic.name(), "Mid-Atlantic");
    assert_eq!(Region::Southeast.name(), "Southeast");
    assert_eq!(Region::Midwest.name(), "Midwest");
    assert_eq!(Region::GreatPlains.name(), "Great Plains");
    assert_eq!(Region::Southwest.name(), "Southwest");
    assert_eq!(Region::Mountain.name(), "Mountain");
    assert_eq!(Region::WestCoast.name(), "West Coast");
    assert_eq!(Region::PuertoRico.name(), "Puerto Rico");
    assert_eq!(Region::Hawaii.name(), "Hawaii");
    assert_eq!(Region::Alaska.name(), "Alaska");
    assert_eq!(Region::International.name(), "International");
    assert_eq!(Region::All.name(), "All Regions");
}
