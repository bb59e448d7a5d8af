//! Place names: the country and the continent of a country code.

use vstd::prelude::*;
use crate::tags::is_rule_tag;
use crate::text::chars_of;

verus! {

/// The name of the country whose ISO 3166-1 code is the letters `a`, `b`.
pub open spec fn country_of_letters(a: char, b: char) -> Option<Seq<char>> {
    match a {
        'A' => match b {
            'D' => Some("Andorra"@),
            'E' => Some("UAE"@),
            'F' => Some("Afghanistan"@),
            'G' => Some("Antigua and Barbuda"@),
            'I' => Some("Anguilla"@),
            'L' => Some("Albania"@),
            'M' => Some("Armenia"@),
            'O' => Some("Angola"@),
            'Q' => Some("Antarctica"@),
            'R' => Some("Argentina"@),
            'S' => Some("American Samoa"@),
            'T' => Some("Austria"@),
            'U' => Some("Australia"@),
            'W' => Some("Aruba"@),
            'Z' => Some("Azerbaijan"@),
            _ => None,
        },
        'B' => match b {
            'A' => Some("Bosnia and Herzegovina"@),
            'B' => Some("Barbados"@),
            'D' => Some("Bangladesh"@),
            'E' => Some("Belgium"@),
            'F' => Some("Burkina Faso"@),
            'G' => Some("Bulgaria"@),
            'H' => Some("Bahrain"@),
            'I' => Some("Burundi"@),
            'J' => Some("Benin"@),
            'M' => Some("Bermuda"@),
            'N' => Some("Brunei"@),
            'O' => Some("Bolivia"@),
            'R' => Some("Brazil"@),
            'S' => Some("Bahamas"@),
            'T' => Some("Bhutan"@),
            'W' => Some("Botswana"@),
            'Y' => Some("Belarus"@),
            'Z' => Some("Belize"@),
            _ => None,
        },
        'C' => match b {
            'A' => Some("Canada"@),
            'D' => Some("DR Congo"@),
            'F' => Some("Central African Republic"@),
            'G' => Some("Congo"@),
            'H' => Some("Switzerland"@),
            'I' => Some("Ivory Coast"@),
            'L' => Some("Chile"@),
            'M' => Some("Cameroon"@),
            'N' => Some("China"@),
            'O' => Some("Colombia"@),
            'R' => Some("Costa Rica"@),
            'U' => Some("Cuba"@),
            'V' => Some("Cape Verde"@),
            'W' => Some("Curaçao"@),
            'Y' => Some("Cyprus"@),
            'Z' => Some("Czech Republic"@),
            _ => None,
        },
        'D' => match b {
            'E' => Some("Germany"@),
            'J' => Some("Djibouti"@),
            'K' => Some("Denmark"@),
            'M' => Some("Dominica"@),
            'O' => Some("Dominican Republic"@),
            'Z' => Some("Algeria"@),
            _ => None,
        },
        'E' => match b {
            'C' => Some("Ecuador"@),
            'E' => Some("Estonia"@),
            'G' => Some("Egypt"@),
            'R' => Some("Eritrea"@),
            'S' => Some("Spain"@),
            'T' => Some("Ethiopia"@),
            _ => None,
        },
        'F' => match b {
            'I' => Some("Finland"@),
            'J' => Some("Fiji"@),
            'K' => Some("Falkland Islands"@),
            'M' => Some("Micronesia"@),
            'O' => Some("Faroe Islands"@),
            'R' => Some("France"@),
            _ => None,
        },
        'G' => match b {
            'A' => Some("Gabon"@),
            'B' => Some("United Kingdom"@),
            'D' => Some("Grenada"@),
            'E' => Some("Georgia"@),
            'F' => Some("French Guiana"@),
            'G' => Some("Guernsey"@),
            'H' => Some("Ghana"@),
            'I' => Some("Gibraltar"@),
            'L' => Some("Greenland"@),
            'M' => Some("Gambia"@),
            'N' => Some("Guinea"@),
            'P' => Some("Guadeloupe"@),
            'Q' => Some("Equatorial Guinea"@),
            'R' => Some("Greece"@),
            'T' => Some("Guatemala"@),
            'U' => Some("Guam"@),
            'W' => Some("Guinea-Bissau"@),
            'Y' => Some("Guyana"@),
            _ => None,
        },
        'H' => match b {
            'K' => Some("Hong Kong"@),
            'N' => Some("Honduras"@),
            'R' => Some("Croatia"@),
            'T' => Some("Haiti"@),
            'U' => Some("Hungary"@),
            _ => None,
        },
        'I' => match b {
            'D' => Some("Indonesia"@),
            'E' => Some("Ireland"@),
            'L' => Some("Israel"@),
            'M' => Some("Isle of Man"@),
            'N' => Some("India"@),
            'Q' => Some("Iraq"@),
            'R' => Some("Iran"@),
            'S' => Some("Iceland"@),
            'T' => Some("Italy"@),
            _ => None,
        },
        'J' => match b {
            'E' => Some("Jersey"@),
            'M' => Some("Jamaica"@),
            'O' => Some("Jordan"@),
            'P' => Some("Japan"@),
            _ => None,
        },
        'K' => match b {
            'E' => Some("Kenya"@),
            'G' => Some("Kyrgyzstan"@),
            'H' => Some("Cambodia"@),
            'I' => Some("Kiribati"@),
            'M' => Some("Comoros"@),
            'N' => Some("Saint Kitts and Nevis"@),
            'P' => Some("North Korea"@),
            'R' => Some("South Korea"@),
            'W' => Some("Kuwait"@),
            'Y' => Some("Cayman Islands"@),
            'Z' => Some("Kazakhstan"@),
            _ => None,
        },
        'L' => match b {
            'A' => Some("Laos"@),
            'B' => Some("Lebanon"@),
            'C' => Some("Saint Lucia"@),
            'I' => Some("Liechtenstein"@),
            'K' => Some("Sri Lanka"@),
            'R' => Some("Liberia"@),
            'S' => Some("Lesotho"@),
            'T' => Some("Lithuania"@),
            'U' => Some("Luxembourg"@),
            'V' => Some("Latvia"@),
            'Y' => Some("Libya"@),
            _ => None,
        },
        'M' => match b {
            'A' => Some("Morocco"@),
            'C' => Some("Monaco"@),
            'D' => Some("Moldova"@),
            'E' => Some("Montenegro"@),
            'G' => Some("Madagascar"@),
            'H' => Some("Marshall Islands"@),
            'K' => Some("North Macedonia"@),
            'L' => Some("Mali"@),
            'M' => Some("Myanmar"@),
            'N' => Some("Mongolia"@),
            'O' => Some("Macau"@),
            'Q' => Some("Martinique"@),
            'R' => Some("Mauritania"@),
            'S' => Some("Montserrat"@),
            'T' => Some("Malta"@),
            'U' => Some("Mauritius"@),
            'V' => Some("Maldives"@),
            'W' => Some("Malawi"@),
            'X' => Some("Mexico"@),
            'Y' => Some("Malaysia"@),
            'Z' => Some("Mozambique"@),
            _ => None,
        },
        'N' => match b {
            'A' => Some("Namibia"@),
            'C' => Some("New Caledonia"@),
            'E' => Some("Niger"@),
            'F' => Some("Norfolk Island"@),
            'G' => Some("Nigeria"@),
            'I' => Some("Nicaragua"@),
            'L' => Some("Netherlands"@),
            'O' => Some("Norway"@),
            'P' => Some("Nepal"@),
            'R' => Some("Nauru"@),
            'U' => Some("Niue"@),
            'Z' => Some("New Zealand"@),
            _ => None,
        },
        'O' => match b {
            'M' => Some("Oman"@),
            _ => None,
        },
        'P' => match b {
            'A' => Some("Panama"@),
            'E' => Some("Peru"@),
            'F' => Some("French Polynesia"@),
            'G' => Some("Papua New Guinea"@),
            'H' => Some("Philippines"@),
            'K' => Some("Pakistan"@),
            'L' => Some("Poland"@),
            'M' => Some("Saint Pierre and Miquelon"@),
            'R' => Some("Puerto Rico"@),
            'S' => Some("Palestine"@),
            'T' => Some("Portugal"@),
            'W' => Some("Palau"@),
            'Y' => Some("Paraguay"@),
            _ => None,
        },
        'Q' => match b {
            'A' => Some("Qatar"@),
            _ => None,
        },
        'R' => match b {
            'E' => Some("Réunion"@),
            'O' => Some("Romania"@),
            'S' => Some("Serbia"@),
            'U' => Some("Russia"@),
            'W' => Some("Rwanda"@),
            _ => None,
        },
        'S' => match b {
            'A' => Some("Saudi Arabia"@),
            'B' => Some("Solomon Islands"@),
            'C' => Some("Seychelles"@),
            'D' => Some("Sudan"@),
            'E' => Some("Sweden"@),
            'G' => Some("Singapore"@),
            'H' => Some("Saint Helena"@),
            'I' => Some("Slovenia"@),
            'K' => Some("Slovakia"@),
            'L' => Some("Sierra Leone"@),
            'M' => Some("San Marino"@),
            'N' => Some("Senegal"@),
            'O' => Some("Somalia"@),
            'R' => Some("Suriname"@),
            'S' => Some("South Sudan"@),
            'T' => Some("São Tomé and Príncipe"@),
            'V' => Some("El Salvador"@),
            'X' => Some("Sint Maarten"@),
            'Y' => Some("Syria"@),
            'Z' => Some("Eswatini"@),
            _ => None,
        },
        'T' => match b {
            'C' => Some("Turks and Caicos"@),
            'D' => Some("Chad"@),
            'G' => Some("Togo"@),
            'H' => Some("Thailand"@),
            'J' => Some("Tajikistan"@),
            'K' => Some("Tokelau"@),
            'L' => Some("Timor-Leste"@),
            'M' => Some("Turkmenistan"@),
            'N' => Some("Tunisia"@),
            'O' => Some("Tonga"@),
            'R' => Some("Turkey"@),
            'T' => Some("Trinidad and Tobago"@),
            'V' => Some("Tuvalu"@),
            'W' => Some("Taiwan"@),
            'Z' => Some("Tanzania"@),
            _ => None,
        },
        'U' => match b {
            'A' => Some("Ukraine"@),
            'G' => Some("Uganda"@),
            'S' => Some("United States"@),
            'Y' => Some("Uruguay"@),
            'Z' => Some("Uzbekistan"@),
            _ => None,
        },
        'V' => match b {
            'A' => Some("Vatican City"@),
            'C' => Some("Saint Vincent"@),
            'E' => Some("Venezuela"@),
            'G' => Some("British Virgin Islands"@),
            'I' => Some("US Virgin Islands"@),
            'N' => Some("Vietnam"@),
            'U' => Some("Vanuatu"@),
            _ => None,
        },
        'W' => match b {
            'F' => Some("Wallis and Futuna"@),
            'S' => Some("Samoa"@),
            _ => None,
        },
        'X' => match b {
            'K' => Some("Kosovo"@),
            _ => None,
        },
        'Y' => match b {
            'E' => Some("Yemen"@),
            'T' => Some("Mayotte"@),
            _ => None,
        },
        'Z' => match b {
            'A' => Some("South Africa"@),
            'M' => Some("Zambia"@),
            'W' => Some("Zimbabwe"@),
            _ => None,
        },
        _ => None,
    }
}

/// The name of the continent where the country lies whose ISO 3166-1 code
/// is the letters `a`, `b`.
pub open spec fn continent_of_letters(a: char, b: char) -> Option<Seq<char>> {
    match a {
        'A' => match b {
            'D' => Some("Europe"@),
            'E' => Some("Asia"@),
            'F' => Some("Asia"@),
            'G' => Some("North America"@),
            'I' => Some("North America"@),
            'L' => Some("Europe"@),
            'M' => Some("Asia"@),
            'O' => Some("Africa"@),
            'Q' => Some("Antarctica"@),
            'R' => Some("South America"@),
            'S' => Some("Oceania"@),
            'T' => Some("Europe"@),
            'U' => Some("Oceania"@),
            'W' => Some("North America"@),
            'Z' => Some("Asia"@),
            _ => None,
        },
        'B' => match b {
            'A' => Some("Europe"@),
            'B' => Some("North America"@),
            'D' => Some("Asia"@),
            'E' => Some("Europe"@),
            'F' => Some("Africa"@),
            'G' => Some("Europe"@),
            'H' => Some("Asia"@),
            'I' => Some("Africa"@),
            'J' => Some("Africa"@),
            'M' => Some("North America"@),
            'N' => Some("Asia"@),
            'O' => Some("South America"@),
            'R' => Some("South America"@),
            'S' => Some("North America"@),
            'W' => Some("Africa"@),
            'Y' => Some("Europe"@),
            'Z' => Some("North America"@),
            _ => None,
        },
        'C' => match b {
            'A' => Some("North America"@),
            'D' => Some("Africa"@),
            'F' => Some("Africa"@),
            'G' => Some("Africa"@),
            'H' => Some("Europe"@),
            'I' => Some("Africa"@),
            'L' => Some("South America"@),
            'M' => Some("Africa"@),
            'N' => Some("Asia"@),
            'O' => Some("South America"@),
            'R' => Some("North America"@),
            'U' => Some("North America"@),
            'V' => Some("Africa"@),
            'W' => Some("North America"@),
            'Y' => Some("Europe"@),
            'Z' => Some("Europe"@),
            _ => None,
        },
        'D' => match b {
            'E' => Some("Europe"@),
            'J' => Some("Africa"@),
            'K' => Some("Europe"@),
            'M' => Some("North America"@),
            'O' => Some("North America"@),
            'Z' => Some("Africa"@),
            _ => None,
        },
        'E' => match b {
            'C' => Some("South America"@),
            'E' => Some("Europe"@),
            'G' => Some("Africa"@),
            'R' => Some("Africa"@),
            'S' => Some("Europe"@),
            'T' => Some("Africa"@),
            _ => None,
        },
        'F' => match b {
            'I' => Some("Europe"@),
            'J' => Some("Oceania"@),
            'K' => Some("South America"@),
            'M' => Some("Oceania"@),
            'O' => Some("Europe"@),
            'R' => Some("Europe"@),
            _ => None,
        },
        'G' => match b {
            'A' => Some("Africa"@),
            'B' => Some("Europe"@),
            'D' => Some("North America"@),
            'E' => Some("Europe"@),
            'F' => Some("South America"@),
            'G' => Some("Europe"@),
            'H' => Some("Africa"@),
            'I' => Some("Europe"@),
            'L' => Some("North America"@),
            'M' => Some("Africa"@),
            'N' => Some("Africa"@),
            'P' => Some("North America"@),
            'Q' => Some("Africa"@),
            'R' => Some("Europe"@),
            'T' => Some("North America"@),
            'U' => Some("North America"@),
            'W' => Some("Africa"@),
            'Y' => Some("South America"@),
            _ => None,
        },
        'H' => match b {
            'K' => Some("Asia"@),
            'N' => Some("North America"@),
            'R' => Some("Europe"@),
            'T' => Some("North America"@),
            'U' => Some("Europe"@),
            _ => None,
        },
        'I' => match b {
            'D' => Some("Asia"@),
            'E' => Some("Europe"@),
            'L' => Some("Asia"@),
            'M' => Some("Europe"@),
            'N' => Some("Asia"@),
            'Q' => Some("Asia"@),
            'R' => Some("Asia"@),
            'S' => Some("Europe"@),
            'T' => Some("Europe"@),
            _ => None,
        },
        'J' => match b {
            'E' => Some("Europe"@),
            'M' => Some("North America"@),
            'O' => Some("Asia"@),
            'P' => Some("Asia"@),
            _ => None,
        },
        'K' => match b {
            'E' => Some("Africa"@),
            'G' => Some("Asia"@),
            'H' => Some("Asia"@),
            'I' => Some("Oceania"@),
            'M' => Some("Africa"@),
            'N' => Some("North America"@),
            'P' => Some("Asia"@),
            'R' => Some("Asia"@),
            'W' => Some("Asia"@),
            'Y' => Some("North America"@),
            'Z' => Some("Asia"@),
            _ => None,
        },
        'L' => match b {
            'A' => Some("Asia"@),
            'B' => Some("Asia"@),
            'C' => Some("North America"@),
            'I' => Some("Europe"@),
            'K' => Some("Asia"@),
            'R' => Some("Africa"@),
            'S' => Some("Africa"@),
            'T' => Some("Europe"@),
            'U' => Some("Europe"@),
            'V' => Some("Europe"@),
            'Y' => Some("Africa"@),
            _ => None,
        },
        'M' => match b {
            'A' => Some("Africa"@),
            'C' => Some("Europe"@),
            'D' => Some("Europe"@),
            'E' => Some("Europe"@),
            'G' => Some("Africa"@),
            'H' => Some("Oceania"@),
            'K' => Some("Europe"@),
            'L' => Some("Africa"@),
            'M' => Some("Asia"@),
            'N' => Some("Asia"@),
            'O' => Some("Asia"@),
            'Q' => Some("North America"@),
            'R' => Some("Africa"@),
            'S' => Some("North America"@),
            'T' => Some("Europe"@),
            'U' => Some("Africa"@),
            'V' => Some("Asia"@),
            'W' => Some("Africa"@),
            'X' => Some("North America"@),
            'Y' => Some("Asia"@),
            'Z' => Some("Africa"@),
            _ => None,
        },
        'N' => match b {
            'A' => Some("Africa"@),
            'C' => Some("Oceania"@),
            'E' => Some("Africa"@),
            'F' => Some("Oceania"@),
            'G' => Some("Africa"@),
            'I' => Some("North America"@),
            'L' => Some("Europe"@),
            'O' => Some("Europe"@),
            'P' => Some("Asia"@),
            'R' => Some("Oceania"@),
            'U' => Some("Oceania"@),
            'Z' => Some("Oceania"@),
            _ => None,
        },
        'O' => match b {
            'M' => Some("Asia"@),
            _ => None,
        },
        'P' => match b {
            'A' => Some("North America"@),
            'E' => Some("South America"@),
            'F' => Some("Oceania"@),
            'G' => Some("Oceania"@),
            'H' => Some("Asia"@),
            'K' => Some("Asia"@),
            'L' => Some("Europe"@),
            'M' => Some("North America"@),
            'R' => Some("North America"@),
            'S' => Some("Asia"@),
            'T' => Some("Europe"@),
            'W' => Some("Oceania"@),
            'Y' => Some("South America"@),
            _ => None,
        },
        'Q' => match b {
            'A' => Some("Asia"@),
            _ => None,
        },
        'R' => match b {
            'E' => Some("Africa"@),
            'O' => Some("Europe"@),
            'S' => Some("Europe"@),
            'U' => Some("Asia"@),
            'W' => Some("Africa"@),
            _ => None,
        },
        'S' => match b {
            'A' => Some("Asia"@),
            'B' => Some("Oceania"@),
            'C' => Some("Africa"@),
            'D' => Some("Africa"@),
            'E' => Some("Europe"@),
            'G' => Some("Asia"@),
            'H' => Some("Africa"@),
            'I' => Some("Europe"@),
            'K' => Some("Europe"@),
            'L' => Some("Africa"@),
            'M' => Some("Europe"@),
            'N' => Some("Africa"@),
            'O' => Some("Africa"@),
            'R' => Some("South America"@),
            'S' => Some("Africa"@),
            'T' => Some("Africa"@),
            'V' => Some("North America"@),
            'X' => Some("North America"@),
            'Y' => Some("Asia"@),
            'Z' => Some("Africa"@),
            _ => None,
        },
        'T' => match b {
            'C' => Some("North America"@),
            'D' => Some("Africa"@),
            'G' => Some("Africa"@),
            'H' => Some("Asia"@),
            'J' => Some("Asia"@),
            'K' => Some("Oceania"@),
            'L' => Some("Asia"@),
            'M' => Some("Asia"@),
            'N' => Some("Africa"@),
            'O' => Some("Oceania"@),
            'R' => Some("Asia"@),
            'T' => Some("North America"@),
            'V' => Some("Oceania"@),
            'W' => Some("Asia"@),
            'Z' => Some("Africa"@),
            _ => None,
        },
        'U' => match b {
            'A' => Some("Europe"@),
            'G' => Some("Africa"@),
            'S' => Some("North America"@),
            'Y' => Some("South America"@),
            'Z' => Some("Asia"@),
            _ => None,
        },
        'V' => match b {
            'A' => Some("Europe"@),
            'C' => Some("North America"@),
            'E' => Some("South America"@),
            'G' => Some("North America"@),
            'I' => Some("North America"@),
            'N' => Some("Asia"@),
            'U' => Some("Oceania"@),
            _ => None,
        },
        'W' => match b {
            'F' => Some("Oceania"@),
            'S' => Some("Oceania"@),
            _ => None,
        },
        'X' => match b {
            'K' => Some("Europe"@),
            _ => None,
        },
        'Y' => match b {
            'E' => Some("Asia"@),
            'T' => Some("Africa"@),
            _ => None,
        },
        'Z' => match b {
            'A' => Some("Africa"@),
            'M' => Some("Africa"@),
            'W' => Some("Africa"@),
            _ => None,
        },
        _ => None,
    }
}

/// The name of the country with the code `cc`: two capital letters.
pub open spec fn country_name(cc: Seq<char>) -> Option<Seq<char>> {
    if cc.len() == 2 {
        country_of_letters(cc[0], cc[1])
    } else {
        None
    }
}

/// The name of the continent of the country with the code `cc`.
pub open spec fn continent_name(cc: Seq<char>) -> Option<Seq<char>> {
    if cc.len() == 2 {
        continent_of_letters(cc[0], cc[1])
    } else {
        None
    }
}

/// The view of a name that may be there.
pub open spec fn name_view(name: Option<&'static str>) -> Option<Seq<char>> {
    match name {
        Some(n) => Some(n@),
        None => None,
    }
}

fn country_by_letters(a: char, b: char) -> (r: Option<&'static str>)
    ensures
        name_view(r) == country_of_letters(a, b),
{
    match a {
        'A' => match b {
            'D' => Some("Andorra"),
            'E' => Some("UAE"),
            'F' => Some("Afghanistan"),
            'G' => Some("Antigua and Barbuda"),
            'I' => Some("Anguilla"),
            'L' => Some("Albania"),
            'M' => Some("Armenia"),
            'O' => Some("Angola"),
            'Q' => Some("Antarctica"),
            'R' => Some("Argentina"),
            'S' => Some("American Samoa"),
            'T' => Some("Austria"),
            'U' => Some("Australia"),
            'W' => Some("Aruba"),
            'Z' => Some("Azerbaijan"),
            _ => None,
        },
        'B' => match b {
            'A' => Some("Bosnia and Herzegovina"),
            'B' => Some("Barbados"),
            'D' => Some("Bangladesh"),
            'E' => Some("Belgium"),
            'F' => Some("Burkina Faso"),
            'G' => Some("Bulgaria"),
            'H' => Some("Bahrain"),
            'I' => Some("Burundi"),
            'J' => Some("Benin"),
            'M' => Some("Bermuda"),
            'N' => Some("Brunei"),
            'O' => Some("Bolivia"),
            'R' => Some("Brazil"),
            'S' => Some("Bahamas"),
            'T' => Some("Bhutan"),
            'W' => Some("Botswana"),
            'Y' => Some("Belarus"),
            'Z' => Some("Belize"),
            _ => None,
        },
        'C' => match b {
            'A' => Some("Canada"),
            'D' => Some("DR Congo"),
            'F' => Some("Central African Republic"),
            'G' => Some("Congo"),
            'H' => Some("Switzerland"),
            'I' => Some("Ivory Coast"),
            'L' => Some("Chile"),
            'M' => Some("Cameroon"),
            'N' => Some("China"),
            'O' => Some("Colombia"),
            'R' => Some("Costa Rica"),
            'U' => Some("Cuba"),
            'V' => Some("Cape Verde"),
            'W' => Some("Curaçao"),
            'Y' => Some("Cyprus"),
            'Z' => Some("Czech Republic"),
            _ => None,
        },
        'D' => match b {
            'E' => Some("Germany"),
            'J' => Some("Djibouti"),
            'K' => Some("Denmark"),
            'M' => Some("Dominica"),
            'O' => Some("Dominican Republic"),
            'Z' => Some("Algeria"),
            _ => None,
        },
        'E' => match b {
            'C' => Some("Ecuador"),
            'E' => Some("Estonia"),
            'G' => Some("Egypt"),
            'R' => Some("Eritrea"),
            'S' => Some("Spain"),
            'T' => Some("Ethiopia"),
            _ => None,
        },
        'F' => match b {
            'I' => Some("Finland"),
            'J' => Some("Fiji"),
            'K' => Some("Falkland Islands"),
            'M' => Some("Micronesia"),
            'O' => Some("Faroe Islands"),
            'R' => Some("France"),
            _ => None,
        },
        'G' => match b {
            'A' => Some("Gabon"),
            'B' => Some("United Kingdom"),
            'D' => Some("Grenada"),
            'E' => Some("Georgia"),
            'F' => Some("French Guiana"),
            'G' => Some("Guernsey"),
            'H' => Some("Ghana"),
            'I' => Some("Gibraltar"),
            'L' => Some("Greenland"),
            'M' => Some("Gambia"),
            'N' => Some("Guinea"),
            'P' => Some("Guadeloupe"),
            'Q' => Some("Equatorial Guinea"),
            'R' => Some("Greece"),
            'T' => Some("Guatemala"),
            'U' => Some("Guam"),
            'W' => Some("Guinea-Bissau"),
            'Y' => Some("Guyana"),
            _ => None,
        },
        'H' => match b {
            'K' => Some("Hong Kong"),
            'N' => Some("Honduras"),
            'R' => Some("Croatia"),
            'T' => Some("Haiti"),
            'U' => Some("Hungary"),
            _ => None,
        },
        'I' => match b {
            'D' => Some("Indonesia"),
            'E' => Some("Ireland"),
            'L' => Some("Israel"),
            'M' => Some("Isle of Man"),
            'N' => Some("India"),
            'Q' => Some("Iraq"),
            'R' => Some("Iran"),
            'S' => Some("Iceland"),
            'T' => Some("Italy"),
            _ => None,
        },
        'J' => match b {
            'E' => Some("Jersey"),
            'M' => Some("Jamaica"),
            'O' => Some("Jordan"),
            'P' => Some("Japan"),
            _ => None,
        },
        'K' => match b {
            'E' => Some("Kenya"),
            'G' => Some("Kyrgyzstan"),
            'H' => Some("Cambodia"),
            'I' => Some("Kiribati"),
            'M' => Some("Comoros"),
            'N' => Some("Saint Kitts and Nevis"),
            'P' => Some("North Korea"),
            'R' => Some("South Korea"),
            'W' => Some("Kuwait"),
            'Y' => Some("Cayman Islands"),
            'Z' => Some("Kazakhstan"),
            _ => None,
        },
        'L' => match b {
            'A' => Some("Laos"),
            'B' => Some("Lebanon"),
            'C' => Some("Saint Lucia"),
            'I' => Some("Liechtenstein"),
            'K' => Some("Sri Lanka"),
            'R' => Some("Liberia"),
            'S' => Some("Lesotho"),
            'T' => Some("Lithuania"),
            'U' => Some("Luxembourg"),
            'V' => Some("Latvia"),
            'Y' => Some("Libya"),
            _ => None,
        },
        'M' => match b {
            'A' => Some("Morocco"),
            'C' => Some("Monaco"),
            'D' => Some("Moldova"),
            'E' => Some("Montenegro"),
            'G' => Some("Madagascar"),
            'H' => Some("Marshall Islands"),
            'K' => Some("North Macedonia"),
            'L' => Some("Mali"),
            'M' => Some("Myanmar"),
            'N' => Some("Mongolia"),
            'O' => Some("Macau"),
            'Q' => Some("Martinique"),
            'R' => Some("Mauritania"),
            'S' => Some("Montserrat"),
            'T' => Some("Malta"),
            'U' => Some("Mauritius"),
            'V' => Some("Maldives"),
            'W' => Some("Malawi"),
            'X' => Some("Mexico"),
            'Y' => Some("Malaysia"),
            'Z' => Some("Mozambique"),
            _ => None,
        },
        'N' => match b {
            'A' => Some("Namibia"),
            'C' => Some("New Caledonia"),
            'E' => Some("Niger"),
            'F' => Some("Norfolk Island"),
            'G' => Some("Nigeria"),
            'I' => Some("Nicaragua"),
            'L' => Some("Netherlands"),
            'O' => Some("Norway"),
            'P' => Some("Nepal"),
            'R' => Some("Nauru"),
            'U' => Some("Niue"),
            'Z' => Some("New Zealand"),
            _ => None,
        },
        'O' => match b {
            'M' => Some("Oman"),
            _ => None,
        },
        'P' => match b {
            'A' => Some("Panama"),
            'E' => Some("Peru"),
            'F' => Some("French Polynesia"),
            'G' => Some("Papua New Guinea"),
            'H' => Some("Philippines"),
            'K' => Some("Pakistan"),
            'L' => Some("Poland"),
            'M' => Some("Saint Pierre and Miquelon"),
            'R' => Some("Puerto Rico"),
            'S' => Some("Palestine"),
            'T' => Some("Portugal"),
            'W' => Some("Palau"),
            'Y' => Some("Paraguay"),
            _ => None,
        },
        'Q' => match b {
            'A' => Some("Qatar"),
            _ => None,
        },
        'R' => match b {
            'E' => Some("Réunion"),
            'O' => Some("Romania"),
            'S' => Some("Serbia"),
            'U' => Some("Russia"),
            'W' => Some("Rwanda"),
            _ => None,
        },
        'S' => match b {
            'A' => Some("Saudi Arabia"),
            'B' => Some("Solomon Islands"),
            'C' => Some("Seychelles"),
            'D' => Some("Sudan"),
            'E' => Some("Sweden"),
            'G' => Some("Singapore"),
            'H' => Some("Saint Helena"),
            'I' => Some("Slovenia"),
            'K' => Some("Slovakia"),
            'L' => Some("Sierra Leone"),
            'M' => Some("San Marino"),
            'N' => Some("Senegal"),
            'O' => Some("Somalia"),
            'R' => Some("Suriname"),
            'S' => Some("South Sudan"),
            'T' => Some("São Tomé and Príncipe"),
            'V' => Some("El Salvador"),
            'X' => Some("Sint Maarten"),
            'Y' => Some("Syria"),
            'Z' => Some("Eswatini"),
            _ => None,
        },
        'T' => match b {
            'C' => Some("Turks and Caicos"),
            'D' => Some("Chad"),
            'G' => Some("Togo"),
            'H' => Some("Thailand"),
            'J' => Some("Tajikistan"),
            'K' => Some("Tokelau"),
            'L' => Some("Timor-Leste"),
            'M' => Some("Turkmenistan"),
            'N' => Some("Tunisia"),
            'O' => Some("Tonga"),
            'R' => Some("Turkey"),
            'T' => Some("Trinidad and Tobago"),
            'V' => Some("Tuvalu"),
            'W' => Some("Taiwan"),
            'Z' => Some("Tanzania"),
            _ => None,
        },
        'U' => match b {
            'A' => Some("Ukraine"),
            'G' => Some("Uganda"),
            'S' => Some("United States"),
            'Y' => Some("Uruguay"),
            'Z' => Some("Uzbekistan"),
            _ => None,
        },
        'V' => match b {
            'A' => Some("Vatican City"),
            'C' => Some("Saint Vincent"),
            'E' => Some("Venezuela"),
            'G' => Some("British Virgin Islands"),
            'I' => Some("US Virgin Islands"),
            'N' => Some("Vietnam"),
            'U' => Some("Vanuatu"),
            _ => None,
        },
        'W' => match b {
            'F' => Some("Wallis and Futuna"),
            'S' => Some("Samoa"),
            _ => None,
        },
        'X' => match b {
            'K' => Some("Kosovo"),
            _ => None,
        },
        'Y' => match b {
            'E' => Some("Yemen"),
            'T' => Some("Mayotte"),
            _ => None,
        },
        'Z' => match b {
            'A' => Some("South Africa"),
            'M' => Some("Zambia"),
            'W' => Some("Zimbabwe"),
            _ => None,
        },
        _ => None,
    }
}

fn continent_by_letters(a: char, b: char) -> (r: Option<&'static str>)
    ensures
        name_view(r) == continent_of_letters(a, b),
{
    match a {
        'A' => match b {
            'D' => Some("Europe"),
            'E' => Some("Asia"),
            'F' => Some("Asia"),
            'G' => Some("North America"),
            'I' => Some("North America"),
            'L' => Some("Europe"),
            'M' => Some("Asia"),
            'O' => Some("Africa"),
            'Q' => Some("Antarctica"),
            'R' => Some("South America"),
            'S' => Some("Oceania"),
            'T' => Some("Europe"),
            'U' => Some("Oceania"),
            'W' => Some("North America"),
            'Z' => Some("Asia"),
            _ => None,
        },
        'B' => match b {
            'A' => Some("Europe"),
            'B' => Some("North America"),
            'D' => Some("Asia"),
            'E' => Some("Europe"),
            'F' => Some("Africa"),
            'G' => Some("Europe"),
            'H' => Some("Asia"),
            'I' => Some("Africa"),
            'J' => Some("Africa"),
            'M' => Some("North America"),
            'N' => Some("Asia"),
            'O' => Some("South America"),
            'R' => Some("South America"),
            'S' => Some("North America"),
            'W' => Some("Africa"),
            'Y' => Some("Europe"),
            'Z' => Some("North America"),
            _ => None,
        },
        'C' => match b {
            'A' => Some("North America"),
            'D' => Some("Africa"),
            'F' => Some("Africa"),
            'G' => Some("Africa"),
            'H' => Some("Europe"),
            'I' => Some("Africa"),
            'L' => Some("South America"),
            'M' => Some("Africa"),
            'N' => Some("Asia"),
            'O' => Some("South America"),
            'R' => Some("North America"),
            'U' => Some("North America"),
            'V' => Some("Africa"),
            'W' => Some("North America"),
            'Y' => Some("Europe"),
            'Z' => Some("Europe"),
            _ => None,
        },
        'D' => match b {
            'E' => Some("Europe"),
            'J' => Some("Africa"),
            'K' => Some("Europe"),
            'M' => Some("North America"),
            'O' => Some("North America"),
            'Z' => Some("Africa"),
            _ => None,
        },
        'E' => match b {
            'C' => Some("South America"),
            'E' => Some("Europe"),
            'G' => Some("Africa"),
            'R' => Some("Africa"),
            'S' => Some("Europe"),
            'T' => Some("Africa"),
            _ => None,
        },
        'F' => match b {
            'I' => Some("Europe"),
            'J' => Some("Oceania"),
            'K' => Some("South America"),
            'M' => Some("Oceania"),
            'O' => Some("Europe"),
            'R' => Some("Europe"),
            _ => None,
        },
        'G' => match b {
            'A' => Some("Africa"),
            'B' => Some("Europe"),
            'D' => Some("North America"),
            'E' => Some("Europe"),
            'F' => Some("South America"),
            'G' => Some("Europe"),
            'H' => Some("Africa"),
            'I' => Some("Europe"),
            'L' => Some("North America"),
            'M' => Some("Africa"),
            'N' => Some("Africa"),
            'P' => Some("North America"),
            'Q' => Some("Africa"),
            'R' => Some("Europe"),
            'T' => Some("North America"),
            'U' => Some("North America"),
            'W' => Some("Africa"),
            'Y' => Some("South America"),
            _ => None,
        },
        'H' => match b {
            'K' => Some("Asia"),
            'N' => Some("North America"),
            'R' => Some("Europe"),
            'T' => Some("North America"),
            'U' => Some("Europe"),
            _ => None,
        },
        'I' => match b {
            'D' => Some("Asia"),
            'E' => Some("Europe"),
            'L' => Some("Asia"),
            'M' => Some("Europe"),
            'N' => Some("Asia"),
            'Q' => Some("Asia"),
            'R' => Some("Asia"),
            'S' => Some("Europe"),
            'T' => Some("Europe"),
            _ => None,
        },
        'J' => match b {
            'E' => Some("Europe"),
            'M' => Some("North America"),
            'O' => Some("Asia"),
            'P' => Some("Asia"),
            _ => None,
        },
        'K' => match b {
            'E' => Some("Africa"),
            'G' => Some("Asia"),
            'H' => Some("Asia"),
            'I' => Some("Oceania"),
            'M' => Some("Africa"),
            'N' => Some("North America"),
            'P' => Some("Asia"),
            'R' => Some("Asia"),
            'W' => Some("Asia"),
            'Y' => Some("North America"),
            'Z' => Some("Asia"),
            _ => None,
        },
        'L' => match b {
            'A' => Some("Asia"),
            'B' => Some("Asia"),
            'C' => Some("North America"),
            'I' => Some("Europe"),
            'K' => Some("Asia"),
            'R' => Some("Africa"),
            'S' => Some("Africa"),
            'T' => Some("Europe"),
            'U' => Some("Europe"),
            'V' => Some("Europe"),
            'Y' => Some("Africa"),
            _ => None,
        },
        'M' => match b {
            'A' => Some("Africa"),
            'C' => Some("Europe"),
            'D' => Some("Europe"),
            'E' => Some("Europe"),
            'G' => Some("Africa"),
            'H' => Some("Oceania"),
            'K' => Some("Europe"),
            'L' => Some("Africa"),
            'M' => Some("Asia"),
            'N' => Some("Asia"),
            'O' => Some("Asia"),
            'Q' => Some("North America"),
            'R' => Some("Africa"),
            'S' => Some("North America"),
            'T' => Some("Europe"),
            'U' => Some("Africa"),
            'V' => Some("Asia"),
            'W' => Some("Africa"),
            'X' => Some("North America"),
            'Y' => Some("Asia"),
            'Z' => Some("Africa"),
            _ => None,
        },
        'N' => match b {
            'A' => Some("Africa"),
            'C' => Some("Oceania"),
            'E' => Some("Africa"),
            'F' => Some("Oceania"),
            'G' => Some("Africa"),
            'I' => Some("North America"),
            'L' => Some("Europe"),
            'O' => Some("Europe"),
            'P' => Some("Asia"),
            'R' => Some("Oceania"),
            'U' => Some("Oceania"),
            'Z' => Some("Oceania"),
            _ => None,
        },
        'O' => match b {
            'M' => Some("Asia"),
            _ => None,
        },
        'P' => match b {
            'A' => Some("North America"),
            'E' => Some("South America"),
            'F' => Some("Oceania"),
            'G' => Some("Oceania"),
            'H' => Some("Asia"),
            'K' => Some("Asia"),
            'L' => Some("Europe"),
            'M' => Some("North America"),
            'R' => Some("North America"),
            'S' => Some("Asia"),
            'T' => Some("Europe"),
            'W' => Some("Oceania"),
            'Y' => Some("South America"),
            _ => None,
        },
        'Q' => match b {
            'A' => Some("Asia"),
            _ => None,
        },
        'R' => match b {
            'E' => Some("Africa"),
            'O' => Some("Europe"),
            'S' => Some("Europe"),
            'U' => Some("Asia"),
            'W' => Some("Africa"),
            _ => None,
        },
        'S' => match b {
            'A' => Some("Asia"),
            'B' => Some("Oceania"),
            'C' => Some("Africa"),
            'D' => Some("Africa"),
            'E' => Some("Europe"),
            'G' => Some("Asia"),
            'H' => Some("Africa"),
            'I' => Some("Europe"),
            'K' => Some("Europe"),
            'L' => Some("Africa"),
            'M' => Some("Europe"),
            'N' => Some("Africa"),
            'O' => Some("Africa"),
            'R' => Some("South America"),
            'S' => Some("Africa"),
            'T' => Some("Africa"),
            'V' => Some("North America"),
            'X' => Some("North America"),
            'Y' => Some("Asia"),
            'Z' => Some("Africa"),
            _ => None,
        },
        'T' => match b {
            'C' => Some("North America"),
            'D' => Some("Africa"),
            'G' => Some("Africa"),
            'H' => Some("Asia"),
            'J' => Some("Asia"),
            'K' => Some("Oceania"),
            'L' => Some("Asia"),
            'M' => Some("Asia"),
            'N' => Some("Africa"),
            'O' => Some("Oceania"),
            'R' => Some("Asia"),
            'T' => Some("North America"),
            'V' => Some("Oceania"),
            'W' => Some("Asia"),
            'Z' => Some("Africa"),
            _ => None,
        },
        'U' => match b {
            'A' => Some("Europe"),
            'G' => Some("Africa"),
            'S' => Some("North America"),
            'Y' => Some("South America"),
            'Z' => Some("Asia"),
            _ => None,
        },
        'V' => match b {
            'A' => Some("Europe"),
            'C' => Some("North America"),
            'E' => Some("South America"),
            'G' => Some("North America"),
            'I' => Some("North America"),
            'N' => Some("Asia"),
            'U' => Some("Oceania"),
            _ => None,
        },
        'W' => match b {
            'F' => Some("Oceania"),
            'S' => Some("Oceania"),
            _ => None,
        },
        'X' => match b {
            'K' => Some("Europe"),
            _ => None,
        },
        'Y' => match b {
            'E' => Some("Asia"),
            'T' => Some("Africa"),
            _ => None,
        },
        'Z' => match b {
            'A' => Some("Africa"),
            'M' => Some("Africa"),
            'W' => Some("Africa"),
            _ => None,
        },
        _ => None,
    }
}

/// The name of the country with the ISO 3166-1 alpha-2 code `cc`.
pub fn country_from_cc(cc: &str) -> (r: Option<&'static str>)
    ensures
        name_view(r) == country_name(cc@),
{
    let letters = chars_of(cc);
    if letters.len() == 2 {
        country_by_letters(letters[0], letters[1])
    } else {
        None
    }
}

/// The name of the continent of the country with the ISO 3166-1 alpha-2
/// code `cc`.
pub fn continent_from_cc(cc: &str) -> (r: Option<&'static str>)
    ensures
        name_view(r) == continent_name(cc@),
{
    let letters = chars_of(cc);
    if letters.len() == 2 {
        continent_by_letters(letters[0], letters[1])
    } else {
        None
    }
}

// ---------------------------------------------------------------------------
// Place names and the tags of rules
// ---------------------------------------------------------------------------
//
// A place name is told from the tag of a rule by its length or, where the
// lengths are the same, by the first character in which the two differ.

/// No country whose code begins with `A` has the tag of a rule for its
/// name.
proof fn lemma_countries_a(b: char)
    ensures
        country_of_letters('A', b) matches Some(name) ==> !is_rule_tag(name),
{
    reveal_strlit("Night Flight");
    reveal_strlit("High Speed");
    reveal_strlit("Cold Battery");
    reveal_strlit("Heavy Load");
    reveal_strlit("Low Battery");
    reveal_strlit("High Altitude");
    reveal_strlit("Long Distance");
    reveal_strlit("Long Flight");
    reveal_strlit("Short Flight");
    reveal_strlit("Aggressive Flying");
    reveal_strlit("No GPS");
    reveal_strlit("Afghanistan");
    reveal_strlit("Albania");
    reveal_strlit("American Samoa");
    reveal_strlit("Andorra");
    reveal_strlit("Angola");
    reveal_strlit("Anguilla");
    reveal_strlit("Antarctica");
    reveal_strlit("Antigua and Barbuda");
    reveal_strlit("Argentina");
    reveal_strlit("Armenia");
    reveal_strlit("Aruba");
    reveal_strlit("Australia");
    reveal_strlit("Austria");
    reveal_strlit("Azerbaijan");
    reveal_strlit("UAE");
    assert("Night Flight"@.len() == 12);
    assert("High Speed"@.len() == 10);
    assert("Cold Battery"@.len() == 12);
    assert("Heavy Load"@.len() == 10);
    assert("Low Battery"@.len() == 11);
    assert("High Altitude"@.len() == 13);
    assert("Long Distance"@.len() == 13);
    assert("Long Flight"@.len() == 11);
    assert("Short Flight"@.len() == 12);
    assert("Aggressive Flying"@.len() == 17);
    assert("No GPS"@.len() == 6);
    assert("Afghanistan"@.len() == 11);
    assert("Afghanistan"@[0] == 'A' && "Low Battery"@[0] == 'L');
    assert("Afghanistan"@[0] == 'A' && "Long Flight"@[0] == 'L');
    assert(!is_rule_tag("Afghanistan"@));
    assert("Albania"@.len() == 7);
    assert(!is_rule_tag("Albania"@));
    assert("American Samoa"@.len() == 14);
    assert(!is_rule_tag("American Samoa"@));
    assert("Andorra"@.len() == 7);
    assert(!is_rule_tag("Andorra"@));
    assert("Angola"@.len() == 6);
    assert("Angola"@[0] == 'A' && "No GPS"@[0] == 'N');
    assert(!is_rule_tag("Angola"@));
    assert("Anguilla"@.len() == 8);
    assert(!is_rule_tag("Anguilla"@));
    assert("Antarctica"@.len() == 10);
    assert("Antarctica"@[0] == 'A' && "High Speed"@[0] == 'H');
    assert("Antarctica"@[0] == 'A' && "Heavy Load"@[0] == 'H');
    assert(!is_rule_tag("Antarctica"@));
    assert("Antigua and Barbuda"@.len() == 19);
    assert(!is_rule_tag("Antigua and Barbuda"@));
    assert("Argentina"@.len() == 9);
    assert(!is_rule_tag("Argentina"@));
    assert("Armenia"@.len() == 7);
    assert(!is_rule_tag("Armenia"@));
    assert("Aruba"@.len() == 5);
    assert(!is_rule_tag("Aruba"@));
    assert("Australia"@.len() == 9);
    assert(!is_rule_tag("Australia"@));
    assert("Austria"@.len() == 7);
    assert(!is_rule_tag("Austria"@));
    assert("Azerbaijan"@.len() == 10);
    assert("Azerbaijan"@[0] == 'A' && "High Speed"@[0] == 'H');
    assert("Azerbaijan"@[0] == 'A' && "Heavy Load"@[0] == 'H');
    assert(!is_rule_tag("Azerbaijan"@));
    assert("UAE"@.len() == 3);
    assert(!is_rule_tag("UAE"@));
}

/// No country whose code begins with `B` has the tag of a rule for its
/// name.
proof fn lemma_countries_b(b: char)
    ensures
        country_of_letters('B', b) matches Some(name) ==> !is_rule_tag(name),
{
    reveal_strlit("Night Flight");
    reveal_strlit("High Speed");
    reveal_strlit("Cold Battery");
    reveal_strlit("Heavy Load");
    reveal_strlit("Low Battery");
    reveal_strlit("High Altitude");
    reveal_strlit("Long Distance");
    reveal_strlit("Long Flight");
    reveal_strlit("Short Flight");
    reveal_strlit("Aggressive Flying");
    reveal_strlit("No GPS");
    reveal_strlit("Bahamas");
    reveal_strlit("Bahrain");
    reveal_strlit("Bangladesh");
    reveal_strlit("Barbados");
    reveal_strlit("Belarus");
    reveal_strlit("Belgium");
    reveal_strlit("Belize");
    reveal_strlit("Benin");
    reveal_strlit("Bermuda");
    reveal_strlit("Bhutan");
    reveal_strlit("Bolivia");
    reveal_strlit("Bosnia and Herzegovina");
    reveal_strlit("Botswana");
    reveal_strlit("Brazil");
    reveal_strlit("Brunei");
    reveal_strlit("Bulgaria");
    reveal_strlit("Burkina Faso");
    reveal_strlit("Burundi");
    assert("Night Flight"@.len() == 12);
    assert("High Speed"@.len() == 10);
    assert("Cold Battery"@.len() == 12);
    assert("Heavy Load"@.len() == 10);
    assert("Low Battery"@.len() == 11);
    assert("High Altitude"@.len() == 13);
    assert("Long Distance"@.len() == 13);
    assert("Long Flight"@.len() == 11);
    assert("Short Flight"@.len() == 12);
    assert("Aggressive Flying"@.len() == 17);
    assert("No GPS"@.len() == 6);
    assert("Bahamas"@.len() == 7);
    assert(!is_rule_tag("Bahamas"@));
    assert("Bahrain"@.len() == 7);
    assert(!is_rule_tag("Bahrain"@));
    assert("Bangladesh"@.len() == 10);
    assert("Bangladesh"@[0] == 'B' && "High Speed"@[0] == 'H');
    assert("Bangladesh"@[0] == 'B' && "Heavy Load"@[0] == 'H');
    assert(!is_rule_tag("Bangladesh"@));
    assert("Barbados"@.len() == 8);
    assert(!is_rule_tag("Barbados"@));
    assert("Belarus"@.len() == 7);
    assert(!is_rule_tag("Belarus"@));
    assert("Belgium"@.len() == 7);
    assert(!is_rule_tag("Belgium"@));
    assert("Belize"@.len() == 6);
    assert("Belize"@[0] == 'B' && "No GPS"@[0] == 'N');
    assert(!is_rule_tag("Belize"@));
    assert("Benin"@.len() == 5);
    assert(!is_rule_tag("Benin"@));
    assert("Bermuda"@.len() == 7);
    assert(!is_rule_tag("Bermuda"@));
    assert("Bhutan"@.len() == 6);
    assert("Bhutan"@[0] == 'B' && "No GPS"@[0] == 'N');
    assert(!is_rule_tag("Bhutan"@));
    assert("Bolivia"@.len() == 7);
    assert(!is_rule_tag("Bolivia"@));
    assert("Bosnia and Herzegovina"@.len() == 22);
    assert(!is_rule_tag("Bosnia and Herzegovina"@));
    assert("Botswana"@.len() == 8);
    assert(!is_rule_tag("Botswana"@));
    assert("Brazil"@.len() == 6);
    assert("Brazil"@[0] == 'B' && "No GPS"@[0] == 'N');
    assert(!is_rule_tag("Brazil"@));
    assert("Brunei"@.len() == 6);
    assert("Brunei"@[0] == 'B' && "No GPS"@[0] == 'N');
    assert(!is_rule_tag("Brunei"@));
    assert("Bulgaria"@.len() == 8);
    assert(!is_rule_tag("Bulgaria"@));
    assert("Burkina Faso"@.len() == 12);
    assert("Burkina Faso"@[0] == 'B' && "Night Flight"@[0] == 'N');
    assert("Burkina Faso"@[0] == 'B' && "Cold Battery"@[0] == 'C');
    assert("Burkina Faso"@[0] == 'B' && "Short Flight"@[0] == 'S');
    assert(!is_rule_tag("Burkina Faso"@));
    assert("Burundi"@.len() == 7);
    assert(!is_rule_tag("Burundi"@));
}

/// No country whose code begins with `C` has the tag of a rule for its
/// name.
proof fn lemma_countries_c(b: char)
    ensures
        country_of_letters('C', b) matches Some(name) ==> !is_rule_tag(name),
{
    reveal_strlit("Night Flight");
    reveal_strlit("High Speed");
    reveal_strlit("Cold Battery");
    reveal_strlit("Heavy Load");
    reveal_strlit("Low Battery");
    reveal_strlit("High Altitude");
    reveal_strlit("Long Distance");
    reveal_strlit("Long Flight");
    reveal_strlit("Short Flight");
    reveal_strlit("Aggressive Flying");
    reveal_strlit("No GPS");
    reveal_strlit("Cameroon");
    reveal_strlit("Canada");
    reveal_strlit("Cape Verde");
    reveal_strlit("Central African Republic");
    reveal_strlit("Chile");
    reveal_strlit("China");
    reveal_strlit("Colombia");
    reveal_strlit("Congo");
    reveal_strlit("Costa Rica");
    reveal_strlit("Cuba");
    reveal_strlit("Curaçao");
    reveal_strlit("Cyprus");
    reveal_strlit("Czech Republic");
    reveal_strlit("DR Congo");
    reveal_strlit("Ivory Coast");
    reveal_strlit("Switzerland");
    assert("Night Flight"@.len() == 12);
    assert("High Speed"@.len() == 10);
    assert("Cold Battery"@.len() == 12);
    assert("Heavy Load"@.len() == 10);
    assert("Low Battery"@.len() == 11);
    assert("High Altitude"@.len() == 13);
    assert("Long Distance"@.len() == 13);
    assert("Long Flight"@.len() == 11);
    assert("Short Flight"@.len() == 12);
    assert("Aggressive Flying"@.len() == 17);
    assert("No GPS"@.len() == 6);
    assert("Cameroon"@.len() == 8);
    assert(!is_rule_tag("Cameroon"@));
    assert("Canada"@.len() == 6);
    assert("Canada"@[0] == 'C' && "No GPS"@[0] == 'N');
    assert(!is_rule_tag("Canada"@));
    assert("Cape Verde"@.len() == 10);
    assert("Cape Verde"@[0] == 'C' && "High Speed"@[0] == 'H');
    assert("Cape Verde"@[0] == 'C' && "Heavy Load"@[0] == 'H');
    assert(!is_rule_tag("Cape Verde"@));
    assert("Central African Republic"@.len() == 24);
    assert(!is_rule_tag("Central African Republic"@));
    assert("Chile"@.len() == 5);
    assert(!is_rule_tag("Chile"@));
    assert("China"@.len() == 5);
    assert(!is_rule_tag("China"@));
    assert("Colombia"@.len() == 8);
    assert(!is_rule_tag("Colombia"@));
    assert("Congo"@.len() == 5);
    assert(!is_rule_tag("Congo"@));
    assert("Costa Rica"@.len() == 10);
    assert("Costa Rica"@[0] == 'C' && "High Speed"@[0] == 'H');
    assert("Costa Rica"@[0] == 'C' && "Heavy Load"@[0] == 'H');
    assert(!is_rule_tag("Costa Rica"@));
    assert("Cuba"@.len() == 4);
    assert(!is_rule_tag("Cuba"@));
    assert("Curaçao"@.len() == 7);
    assert(!is_rule_tag("Curaçao"@));
    assert("Cyprus"@.len() == 6);
    assert("Cyprus"@[0] == 'C' && "No GPS"@[0] == 'N');
    assert(!is_rule_tag("Cyprus"@));
    assert("Czech Republic"@.len() == 14);
    assert(!is_rule_tag("Czech Republic"@));
    assert("DR Congo"@.len() == 8);
    assert(!is_rule_tag("DR Congo"@));
    assert("Ivory Coast"@.len() == 11);
    assert("Ivory Coast"@[0] == 'I' && "Low Battery"@[0] == 'L');
    assert("Ivory Coast"@[0] == 'I' && "Long Flight"@[0] == 'L');
    assert(!is_rule_tag("Ivory Coast"@));
    assert("Switzerland"@.len() == 11);
    assert("Switzerland"@[0] == 'S' && "Low Battery"@[0] == 'L');
    assert("Switzerland"@[0] == 'S' && "Long Flight"@[0] == 'L');
    assert(!is_rule_tag("Switzerland"@));
}

/// No country whose code begins with `D` has the tag of a rule for its
/// name.
proof fn lemma_countries_d(b: char)
    ensures
        country_of_letters('D', b) matches Some(name) ==> !is_rule_tag(name),
{
    reveal_strlit("Night Flight");
    reveal_strlit("High Speed");
    reveal_strlit("Cold Battery");
    reveal_strlit("Heavy Load");
    reveal_strlit("Low Battery");
    reveal_strlit("High Altitude");
    reveal_strlit("Long Distance");
    reveal_strlit("Long Flight");
    reveal_strlit("Short Flight");
    reveal_strlit("Aggressive Flying");
    reveal_strlit("No GPS");
    reveal_strlit("Algeria");
    reveal_strlit("Denmark");
    reveal_strlit("Djibouti");
    reveal_strlit("Dominica");
    reveal_strlit("Dominican Republic");
    reveal_strlit("Germany");
    assert("Night Flight"@.len() == 12);
    assert("High Speed"@.len() == 10);
    assert("Cold Battery"@.len() == 12);
    assert("Heavy Load"@.len() == 10);
    assert("Low Battery"@.len() == 11);
    assert("High Altitude"@.len() == 13);
    assert("Long Distance"@.len() == 13);
    assert("Long Flight"@.len() == 11);
    assert("Short Flight"@.len() == 12);
    assert("Aggressive Flying"@.len() == 17);
    assert("No GPS"@.len() == 6);
    assert("Algeria"@.len() == 7);
    assert(!is_rule_tag("Algeria"@));
    assert("Denmark"@.len() == 7);
    assert(!is_rule_tag("Denmark"@));
    assert("Djibouti"@.len() == 8);
    assert(!is_rule_tag("Djibouti"@));
    assert("Dominica"@.len() == 8);
    assert(!is_rule_tag("Dominica"@));
    assert("Dominican Republic"@.len() == 18);
    assert(!is_rule_tag("Dominican Republic"@));
    assert("Germany"@.len() == 7);
    assert(!is_rule_tag("Germany"@));
}

/// No country whose code begins with `E` has the tag of a rule for its
/// name.
proof fn lemma_countries_e(b: char)
    ensures
        country_of_letters('E', b) matches Some(name) ==> !is_rule_tag(name),
{
    reveal_strlit("Night Flight");
    reveal_strlit("High Speed");
    reveal_strlit("Cold Battery");
    reveal_strlit("Heavy Load");
    reveal_strlit("Low Battery");
    reveal_strlit("High Altitude");
    reveal_strlit("Long Distance");
    reveal_strlit("Long Flight");
    reveal_strlit("Short Flight");
    reveal_strlit("Aggressive Flying");
    reveal_strlit("No GPS");
    reveal_strlit("Ecuador");
    reveal_strlit("Egypt");
    reveal_strlit("Eritrea");
    reveal_strlit("Estonia");
    reveal_strlit("Ethiopia");
    reveal_strlit("Spain");
    assert("Night Flight"@.len() == 12);
    assert("High Speed"@.len() == 10);
    assert("Cold Battery"@.len() == 12);
    assert("Heavy Load"@.len() == 10);
    assert("Low Battery"@.len() == 11);
    assert("High Altitude"@.len() == 13);
    assert("Long Distance"@.len() == 13);
    assert("Long Flight"@.len() == 11);
    assert("Short Flight"@.len() == 12);
    assert("Aggressive Flying"@.len() == 17);
    assert("No GPS"@.len() == 6);
    assert("Ecuador"@.len() == 7);
    assert(!is_rule_tag("Ecuador"@));
    assert("Egypt"@.len() == 5);
    assert(!is_rule_tag("Egypt"@));
    assert("Eritrea"@.len() == 7);
    assert(!is_rule_tag("Eritrea"@));
    assert("Estonia"@.len() == 7);
    assert(!is_rule_tag("Estonia"@));
    assert("Ethiopia"@.len() == 8);
    assert(!is_rule_tag("Ethiopia"@));
    assert("Spain"@.len() == 5);
    assert(!is_rule_tag("Spain"@));
}

/// No country whose code begins with `F` has the tag of a rule for its
/// name.
proof fn lemma_countries_f(b: char)
    ensures
        country_of_letters('F', b) matches Some(name) ==> !is_rule_tag(name),
{
    reveal_strlit("Night Flight");
    reveal_strlit("High Speed");
    reveal_strlit("Cold Battery");
    reveal_strlit("Heavy Load");
    reveal_strlit("Low Battery");
    reveal_strlit("High Altitude");
    reveal_strlit("Long Distance");
    reveal_strlit("Long Flight");
    reveal_strlit("Short Flight");
    reveal_strlit("Aggressive Flying");
    reveal_strlit("No GPS");
    reveal_strlit("Falkland Islands");
    reveal_strlit("Faroe Islands");
    reveal_strlit("Fiji");
    reveal_strlit("Finland");
    reveal_strlit("France");
    reveal_strlit("Micronesia");
    assert("Night Flight"@.len() == 12);
    assert("High Speed"@.len() == 10);
    assert("Cold Battery"@.len() == 12);
    assert("Heavy Load"@.len() == 10);
    assert("Low Battery"@.len() == 11);
    assert("High Altitude"@.len() == 13);
    assert("Long Distance"@.len() == 13);
    assert("Long Flight"@.len() == 11);
    assert("Short Flight"@.len() == 12);
    assert("Aggressive Flying"@.len() == 17);
    assert("No GPS"@.len() == 6);
    assert("Falkland Islands"@.len() == 16);
    assert(!is_rule_tag("Falkland Islands"@));
    assert("Faroe Islands"@.len() == 13);
    assert("Faroe Islands"@[0] == 'F' && "High Altitude"@[0] == 'H');
    assert("Faroe Islands"@[0] == 'F' && "Long Distance"@[0] == 'L');
    assert(!is_rule_tag("Faroe Islands"@));
    assert("Fiji"@.len() == 4);
    assert(!is_rule_tag("Fiji"@));
    assert("Finland"@.len() == 7);
    assert(!is_rule_tag("Finland"@));
    assert("France"@.len() == 6);
    assert("France"@[0] == 'F' && "No GPS"@[0] == 'N');
    assert(!is_rule_tag("France"@));
    assert("Micronesia"@.len() == 10);
    assert("Micronesia"@[0] == 'M' && "High Speed"@[0] == 'H');
    assert("Micronesia"@[0] == 'M' && "Heavy Load"@[0] == 'H');
    assert(!is_rule_tag("Micronesia"@));
}

/// No country whose code begins with `G` has the tag of a rule for its
/// name.
proof fn lemma_countries_g(b: char)
    ensures
        country_of_letters('G', b) matches Some(name) ==> !is_rule_tag(name),
{
    reveal_strlit("Night Flight");
    reveal_strlit("High Speed");
    reveal_strlit("Cold Battery");
    reveal_strlit("Heavy Load");
    reveal_strlit("Low Battery");
    reveal_strlit("High Altitude");
    reveal_strlit("Long Distance");
    reveal_strlit("Long Flight");
    reveal_strlit("Short Flight");
    reveal_strlit("Aggressive Flying");
    reveal_strlit("No GPS");
    reveal_strlit("Equatorial Guinea");
    reveal_strlit("French Guiana");
    reveal_strlit("Gabon");
    reveal_strlit("Gambia");
    reveal_strlit("Georgia");
    reveal_strlit("Ghana");
    reveal_strlit("Gibraltar");
    reveal_strlit("Greece");
    reveal_strlit("Greenland");
    reveal_strlit("Grenada");
    reveal_strlit("Guadeloupe");
    reveal_strlit("Guam");
    reveal_strlit("Guatemala");
    reveal_strlit("Guernsey");
    reveal_strlit("Guinea");
    reveal_strlit("Guinea-Bissau");
    reveal_strlit("Guyana");
    reveal_strlit("United Kingdom");
    assert("Night Flight"@.len() == 12);
    assert("High Speed"@.len() == 10);
    assert("Cold Battery"@.len() == 12);
    assert("Heavy Load"@.len() == 10);
    assert("Low Battery"@.len() == 11);
    assert("High Altitude"@.len() == 13);
    assert("Long Distance"@.len() == 13);
    assert("Long Flight"@.len() == 11);
    assert("Short Flight"@.len() == 12);
    assert("Aggressive Flying"@.len() == 17);
    assert("No GPS"@.len() == 6);
    assert("Equatorial Guinea"@.len() == 17);
    assert("Equatorial Guinea"@[0] == 'E' && "Aggressive Flying"@[0] == 'A');
    assert(!is_rule_tag("Equatorial Guinea"@));
    assert("French Guiana"@.len() == 13);
    assert("French Guiana"@[0] == 'F' && "High Altitude"@[0] == 'H');
    assert("French Guiana"@[0] == 'F' && "Long Distance"@[0] == 'L');
    assert(!is_rule_tag("French Guiana"@));
    assert("Gabon"@.len() == 5);
    assert(!is_rule_tag("Gabon"@));
    assert("Gambia"@.len() == 6);
    assert("Gambia"@[0] == 'G' && "No GPS"@[0] == 'N');
    assert(!is_rule_tag("Gambia"@));
    assert("Georgia"@.len() == 7);
    assert(!is_rule_tag("Georgia"@));
    assert("Ghana"@.len() == 5);
    assert(!is_rule_tag("Ghana"@));
    assert("Gibraltar"@.len() == 9);
    assert(!is_rule_tag("Gibraltar"@));
    assert("Greece"@.len() == 6);
    assert("Greece"@[0] == 'G' && "No GPS"@[0] == 'N');
    assert(!is_rule_tag("Greece"@));
    assert("Greenland"@.len() == 9);
    assert(!is_rule_tag("Greenland"@));
    assert("Grenada"@.len() == 7);
    assert(!is_rule_tag("Grenada"@));
    assert("Guadeloupe"@.len() == 10);
    assert("Guadeloupe"@[0] == 'G' && "High Speed"@[0] == 'H');
    assert("Guadeloupe"@[0] == 'G' && "Heavy Load"@[0] == 'H');
    assert(!is_rule_tag("Guadeloupe"@));
    assert("Guam"@.len() == 4);
    assert(!is_rule_tag("Guam"@));
    assert("Guatemala"@.len() == 9);
    assert(!is_rule_tag("Guatemala"@));
    assert("Guernsey"@.len() == 8);
    assert(!is_rule_tag("Guernsey"@));
    assert("Guinea"@.len() == 6);
    assert("Guinea"@[0] == 'G' && "No GPS"@[0] == 'N');
    assert(!is_rule_tag("Guinea"@));
    assert("Guinea-Bissau"@.len() == 13);
    assert("Guinea-Bissau"@[0] == 'G' && "High Altitude"@[0] == 'H');
    assert("Guinea-Bissau"@[0] == 'G' && "Long Distance"@[0] == 'L');
    assert(!is_rule_tag("Guinea-Bissau"@));
    assert("Guyana"@.len() == 6);
    assert("Guyana"@[0] == 'G' && "No GPS"@[0] == 'N');
    assert(!is_rule_tag("Guyana"@));
    assert("United Kingdom"@.len() == 14);
    assert(!is_rule_tag("United Kingdom"@));
}

/// No country whose code begins with `H` has the tag of a rule for its
/// name.
proof fn lemma_countries_h(b: char)
    ensures
        country_of_letters('H', b) matches Some(name) ==> !is_rule_tag(name),
{
    reveal_strlit("Night Flight");
    reveal_strlit("High Speed");
    reveal_strlit("Cold Battery");
    reveal_strlit("Heavy Load");
    reveal_strlit("Low Battery");
    reveal_strlit("High Altitude");
    reveal_strlit("Long Distance");
    reveal_strlit("Long Flight");
    reveal_strlit("Short Flight");
    reveal_strlit("Aggressive Flying");
    reveal_strlit("No GPS");
    reveal_strlit("Croatia");
    reveal_strlit("Haiti");
    reveal_strlit("Honduras");
    reveal_strlit("Hong Kong");
    reveal_strlit("Hungary");
    assert("Night Flight"@.len() == 12);
    assert("High Speed"@.len() == 10);
    assert("Cold Battery"@.len() == 12);
    assert("Heavy Load"@.len() == 10);
    assert("Low Battery"@.len() == 11);
    assert("High Altitude"@.len() == 13);
    assert("Long Distance"@.len() == 13);
    assert("Long Flight"@.len() == 11);
    assert("Short Flight"@.len() == 12);
    assert("Aggressive Flying"@.len() == 17);
    assert("No GPS"@.len() == 6);
    assert("Croatia"@.len() == 7);
    assert(!is_rule_tag("Croatia"@));
    assert("Haiti"@.len() == 5);
    assert(!is_rule_tag("Haiti"@));
    assert("Honduras"@.len() == 8);
    assert(!is_rule_tag("Honduras"@));
    assert("Hong Kong"@.len() == 9);
    assert(!is_rule_tag("Hong Kong"@));
    assert("Hungary"@.len() == 7);
    assert(!is_rule_tag("Hungary"@));
}

/// No country whose code begins with `I` has the tag of a rule for its
/// name.
proof fn lemma_countries_i(b: char)
    ensures
        country_of_letters('I', b) matches Some(name) ==> !is_rule_tag(name),
{
    reveal_strlit("Night Flight");
    reveal_strlit("High Speed");
    reveal_strlit("Cold Battery");
    reveal_strlit("Heavy Load");
    reveal_strlit("Low Battery");
    reveal_strlit("High Altitude");
    reveal_strlit("Long Distance");
    reveal_strlit("Long Flight");
    reveal_strlit("Short Flight");
    reveal_strlit("Aggressive Flying");
    reveal_strlit("No GPS");
    reveal_strlit("Iceland");
    reveal_strlit("India");
    reveal_strlit("Indonesia");
    reveal_strlit("Iran");
    reveal_strlit("Iraq");
    reveal_strlit("Ireland");
    reveal_strlit("Isle of Man");
    reveal_strlit("Israel");
    reveal_strlit("Italy");
    assert("Night Flight"@.len() == 12);
    assert("High Speed"@.len() == 10);
    assert("Cold Battery"@.len() == 12);
    assert("Heavy Load"@.len() == 10);
    assert("Low Battery"@.len() == 11);
    assert("High Altitude"@.len() == 13);
    assert("Long Distance"@.len() == 13);
    assert("Long Flight"@.len() == 11);
    assert("Short Flight"@.len() == 12);
    assert("Aggressive Flying"@.len() == 17);
    assert("No GPS"@.len() == 6);
    assert("Iceland"@.len() == 7);
    assert(!is_rule_tag("Iceland"@));
    assert("India"@.len() == 5);
    assert(!is_rule_tag("India"@));
    assert("Indonesia"@.len() == 9);
    assert(!is_rule_tag("Indonesia"@));
    assert("Iran"@.len() == 4);
    assert(!is_rule_tag("Iran"@));
    assert("Iraq"@.len() == 4);
    assert(!is_rule_tag("Iraq"@));
    assert("Ireland"@.len() == 7);
    assert(!is_rule_tag("Ireland"@));
    assert("Isle of Man"@.len() == 11);
    assert("Isle of Man"@[0] == 'I' && "Low Battery"@[0] == 'L');
    assert("Isle of Man"@[0] == 'I' && "Long Flight"@[0] == 'L');
    assert(!is_rule_tag("Isle of Man"@));
    assert("Israel"@.len() == 6);
    assert("Israel"@[0] == 'I' && "No GPS"@[0] == 'N');
    assert(!is_rule_tag("Israel"@));
    assert("Italy"@.len() == 5);
    assert(!is_rule_tag("Italy"@));
}

/// No country whose code begins with `J` has the tag of a rule for its
/// name.
proof fn lemma_countries_j(b: char)
    ensures
        country_of_letters('J', b) matches Some(name) ==> !is_rule_tag(name),
{
    reveal_strlit("Night Flight");
    reveal_strlit("High Speed");
    reveal_strlit("Cold Battery");
    reveal_strlit("Heavy Load");
    reveal_strlit("Low Battery");
    reveal_strlit("High Altitude");
    reveal_strlit("Long Distance");
    reveal_strlit("Long Flight");
    reveal_strlit("Short Flight");
    reveal_strlit("Aggressive Flying");
    reveal_strlit("No GPS");
    reveal_strlit("Jamaica");
    reveal_strlit("Japan");
    reveal_strlit("Jersey");
    reveal_strlit("Jordan");
    assert("Night Flight"@.len() == 12);
    assert("High Speed"@.len() == 10);
    assert("Cold Battery"@.len() == 12);
    assert("Heavy Load"@.len() == 10);
    assert("Low Battery"@.len() == 11);
    assert("High Altitude"@.len() == 13);
    assert("Long Distance"@.len() == 13);
    assert("Long Flight"@.len() == 11);
    assert("Short Flight"@.len() == 12);
    assert("Aggressive Flying"@.len() == 17);
    assert("No GPS"@.len() == 6);
    assert("Jamaica"@.len() == 7);
    assert(!is_rule_tag("Jamaica"@));
    assert("Japan"@.len() == 5);
    assert(!is_rule_tag("Japan"@));
    assert("Jersey"@.len() == 6);
    assert("Jersey"@[0] == 'J' && "No GPS"@[0] == 'N');
    assert(!is_rule_tag("Jersey"@));
    assert("Jordan"@.len() == 6);
    assert("Jordan"@[0] == 'J' && "No GPS"@[0] == 'N');
    assert(!is_rule_tag("Jordan"@));
}

/// No country whose code begins with `K` has the tag of a rule for its
/// name.
proof fn lemma_countries_k(b: char)
    ensures
        country_of_letters('K', b) matches Some(name) ==> !is_rule_tag(name),
{
    reveal_strlit("Night Flight");
    reveal_strlit("High Speed");
    reveal_strlit("Cold Battery");
    reveal_strlit("Heavy Load");
    reveal_strlit("Low Battery");
    reveal_strlit("High Altitude");
    reveal_strlit("Long Distance");
    reveal_strlit("Long Flight");
    reveal_strlit("Short Flight");
    reveal_strlit("Aggressive Flying");
    reveal_strlit("No GPS");
    reveal_strlit("Cambodia");
    reveal_strlit("Cayman Islands");
    reveal_strlit("Comoros");
    reveal_strlit("Kazakhstan");
    reveal_strlit("Kenya");
    reveal_strlit("Kiribati");
    reveal_strlit("Kuwait");
    reveal_strlit("Kyrgyzstan");
    reveal_strlit("North Korea");
    reveal_strlit("Saint Kitts and Nevis");
    reveal_strlit("South Korea");
    assert("Night Flight"@.len() == 12);
    assert("High Speed"@.len() == 10);
    assert("Cold Battery"@.len() == 12);
    assert("Heavy Load"@.len() == 10);
    assert("Low Battery"@.len() == 11);
    assert("High Altitude"@.len() == 13);
    assert("Long Distance"@.len() == 13);
    assert("Long Flight"@.len() == 11);
    assert("Short Flight"@.len() == 12);
    assert("Aggressive Flying"@.len() == 17);
    assert("No GPS"@.len() == 6);
    assert("Cambodia"@.len() == 8);
    assert(!is_rule_tag("Cambodia"@));
    assert("Cayman Islands"@.len() == 14);
    assert(!is_rule_tag("Cayman Islands"@));
    assert("Comoros"@.len() == 7);
    assert(!is_rule_tag("Comoros"@));
    assert("Kazakhstan"@.len() == 10);
    assert("Kazakhstan"@[0] == 'K' && "High Speed"@[0] == 'H');
    assert("Kazakhstan"@[0] == 'K' && "Heavy Load"@[0] == 'H');
    assert(!is_rule_tag("Kazakhstan"@));
    assert("Kenya"@.len() == 5);
    assert(!is_rule_tag("Kenya"@));
    assert("Kiribati"@.len() == 8);
    assert(!is_rule_tag("Kiribati"@));
    assert("Kuwait"@.len() == 6);
    assert("Kuwait"@[0] == 'K' && "No GPS"@[0] == 'N');
    assert(!is_rule_tag("Kuwait"@));
    assert("Kyrgyzstan"@.len() == 10);
    assert("Kyrgyzstan"@[0] == 'K' && "High Speed"@[0] == 'H');
    assert("Kyrgyzstan"@[0] == 'K' && "Heavy Load"@[0] == 'H');
    assert(!is_rule_tag("Kyrgyzstan"@));
    assert("North Korea"@.len() == 11);
    assert("North Korea"@[0] == 'N' && "Low Battery"@[0] == 'L');
    assert("North Korea"@[0] == 'N' && "Long Flight"@[0] == 'L');
    assert(!is_rule_tag("North Korea"@));
    assert("Saint Kitts and Nevis"@.len() == 21);
    assert(!is_rule_tag("Saint Kitts and Nevis"@));
    assert("South Korea"@.len() == 11);
    assert("South Korea"@[0] == 'S' && "Low Battery"@[0] == 'L');
    assert("South Korea"@[0] == 'S' && "Long Flight"@[0] == 'L');
    assert(!is_rule_tag("South Korea"@));
}

/// No country whose code begins with `L` has the tag of a rule for its
/// name.
proof fn lemma_countries_l(b: char)
    ensures
        country_of_letters('L', b) matches Some(name) ==> !is_rule_tag(name),
{
    reveal_strlit("Night Flight");
    reveal_strlit("High Speed");
    reveal_strlit("Cold Battery");
    reveal_strlit("Heavy Load");
    reveal_strlit("Low Battery");
    reveal_strlit("High Altitude");
    reveal_strlit("Long Distance");
    reveal_strlit("Long Flight");
    reveal_strlit("Short Flight");
    reveal_strlit("Aggressive Flying");
    reveal_strlit("No GPS");
    reveal_strlit("Laos");
    reveal_strlit("Latvia");
    reveal_strlit("Lebanon");
    reveal_strlit("Lesotho");
    reveal_strlit("Liberia");
    reveal_strlit("Libya");
    reveal_strlit("Liechtenstein");
    reveal_strlit("Lithuania");
    reveal_strlit("Luxembourg");
    reveal_strlit("Saint Lucia");
    reveal_strlit("Sri Lanka");
    assert("Night Flight"@.len() == 12);
    assert("High Speed"@.len() == 10);
    assert("Cold Battery"@.len() == 12);
    assert("Heavy Load"@.len() == 10);
    assert("Low Battery"@.len() == 11);
    assert("High Altitude"@.len() == 13);
    assert("Long Distance"@.len() == 13);
    assert("Long Flight"@.len() == 11);
    assert("Short Flight"@.len() == 12);
    assert("Aggressive Flying"@.len() == 17);
    assert("No GPS"@.len() == 6);
    assert("Laos"@.len() == 4);
    assert(!is_rule_tag("Laos"@));
    assert("Latvia"@.len() == 6);
    assert("Latvia"@[0] == 'L' && "No GPS"@[0] == 'N');
    assert(!is_rule_tag("Latvia"@));
    assert("Lebanon"@.len() == 7);
    assert(!is_rule_tag("Lebanon"@));
    assert("Lesotho"@.len() == 7);
    assert(!is_rule_tag("Lesotho"@));
    assert("Liberia"@.len() == 7);
    assert(!is_rule_tag("Liberia"@));
    assert("Libya"@.len() == 5);
    assert(!is_rule_tag("Libya"@));
    assert("Liechtenstein"@.len() == 13);
    assert("Liechtenstein"@[0] == 'L' && "High Altitude"@[0] == 'H');
    assert("Liechtenstein"@[1] == 'i' && "Long Distance"@[1] == 'o');
    assert(!is_rule_tag("Liechtenstein"@));
    assert("Lithuania"@.len() == 9);
    assert(!is_rule_tag("Lithuania"@));
    assert("Luxembourg"@.len() == 10);
    assert("Luxembourg"@[0] == 'L' && "High Speed"@[0] == 'H');
    assert("Luxembourg"@[0] == 'L' && "Heavy Load"@[0] == 'H');
    assert(!is_rule_tag("Luxembourg"@));
    assert("Saint Lucia"@.len() == 11);
    assert("Saint Lucia"@[0] == 'S' && "Low Battery"@[0] == 'L');
    assert("Saint Lucia"@[0] == 'S' && "Long Flight"@[0] == 'L');
    assert(!is_rule_tag("Saint Lucia"@));
    assert("Sri Lanka"@.len() == 9);
    assert(!is_rule_tag("Sri Lanka"@));
}

/// No country whose code begins with `M` has the tag of a rule for its
/// name.
proof fn lemma_countries_m(b: char)
    ensures
        country_of_letters('M', b) matches Some(name) ==> !is_rule_tag(name),
{
    reveal_strlit("Night Flight");
    reveal_strlit("High Speed");
    reveal_strlit("Cold Battery");
    reveal_strlit("Heavy Load");
    reveal_strlit("Low Battery");
    reveal_strlit("High Altitude");
    reveal_strlit("Long Distance");
    reveal_strlit("Long Flight");
    reveal_strlit("Short Flight");
    reveal_strlit("Aggressive Flying");
    reveal_strlit("No GPS");
    reveal_strlit("Macau");
    reveal_strlit("Madagascar");
    reveal_strlit("Malawi");
    reveal_strlit("Malaysia");
    reveal_strlit("Maldives");
    reveal_strlit("Mali");
    reveal_strlit("Malta");
    reveal_strlit("Marshall Islands");
    reveal_strlit("Martinique");
    reveal_strlit("Mauritania");
    reveal_strlit("Mauritius");
    reveal_strlit("Mexico");
    reveal_strlit("Moldova");
    reveal_strlit("Monaco");
    reveal_strlit("Mongolia");
    reveal_strlit("Montenegro");
    reveal_strlit("Montserrat");
    reveal_strlit("Morocco");
    reveal_strlit("Mozambique");
    reveal_strlit("Myanmar");
    reveal_strlit("North Macedonia");
    assert("Night Flight"@.len() == 12);
    assert("High Speed"@.len() == 10);
    assert("Cold Battery"@.len() == 12);
    assert("Heavy Load"@.len() == 10);
    assert("Low Battery"@.len() == 11);
    assert("High Altitude"@.len() == 13);
    assert("Long Distance"@.len() == 13);
    assert("Long Flight"@.len() == 11);
    assert("Short Flight"@.len() == 12);
    assert("Aggressive Flying"@.len() == 17);
    assert("No GPS"@.len() == 6);
    assert("Macau"@.len() == 5);
    assert(!is_rule_tag("Macau"@));
    assert("Madagascar"@.len() == 10);
    assert("Madagascar"@[0] == 'M' && "High Speed"@[0] == 'H');
    assert("Madagascar"@[0] == 'M' && "Heavy Load"@[0] == 'H');
    assert(!is_rule_tag("Madagascar"@));
    assert("Malawi"@.len() == 6);
    assert("Malawi"@[0] == 'M' && "No GPS"@[0] == 'N');
    assert(!is_rule_tag("Malawi"@));
    assert("Malaysia"@.len() == 8);
    assert(!is_rule_tag("Malaysia"@));
    assert("Maldives"@.len() == 8);
    assert(!is_rule_tag("Maldives"@));
    assert("Mali"@.len() == 4);
    assert(!is_rule_tag("Mali"@));
    assert("Malta"@.len() == 5);
    assert(!is_rule_tag("Malta"@));
    assert("Marshall Islands"@.len() == 16);
    assert(!is_rule_tag("Marshall Islands"@));
    assert("Martinique"@.len() == 10);
    assert("Martinique"@[0] == 'M' && "High Speed"@[0] == 'H');
    assert("Martinique"@[0] == 'M' && "Heavy Load"@[0] == 'H');
    assert(!is_rule_tag("Martinique"@));
    assert("Mauritania"@.len() == 10);
    assert("Mauritania"@[0] == 'M' && "High Speed"@[0] == 'H');
    assert("Mauritania"@[0] == 'M' && "Heavy Load"@[0] == 'H');
    assert(!is_rule_tag("Mauritania"@));
    assert("Mauritius"@.len() == 9);
    assert(!is_rule_tag("Mauritius"@));
    assert("Mexico"@.len() == 6);
    assert("Mexico"@[0] == 'M' && "No GPS"@[0] == 'N');
    assert(!is_rule_tag("Mexico"@));
    assert("Moldova"@.len() == 7);
    assert(!is_rule_tag("Moldova"@));
    assert("Monaco"@.len() == 6);
    assert("Monaco"@[0] == 'M' && "No GPS"@[0] == 'N');
    assert(!is_rule_tag("Monaco"@));
    assert("Mongolia"@.len() == 8);
    assert(!is_rule_tag("Mongolia"@));
    assert("Montenegro"@.len() == 10);
    assert("Montenegro"@[0] == 'M' && "High Speed"@[0] == 'H');
    assert("Montenegro"@[0] == 'M' && "Heavy Load"@[0] == 'H');
    assert(!is_rule_tag("Montenegro"@));
    assert("Montserrat"@.len() == 10);
    assert("Montserrat"@[0] == 'M' && "High Speed"@[0] == 'H');
    assert("Montserrat"@[0] == 'M' && "Heavy Load"@[0] == 'H');
    assert(!is_rule_tag("Montserrat"@));
    assert("Morocco"@.len() == 7);
    assert(!is_rule_tag("Morocco"@));
    assert("Mozambique"@.len() == 10);
    assert("Mozambique"@[0] == 'M' && "High Speed"@[0] == 'H');
    assert("Mozambique"@[0] == 'M' && "Heavy Load"@[0] == 'H');
    assert(!is_rule_tag("Mozambique"@));
    assert("Myanmar"@.len() == 7);
    assert(!is_rule_tag("Myanmar"@));
    assert("North Macedonia"@.len() == 15);
    assert(!is_rule_tag("North Macedonia"@));
}

/// No country whose code begins with `N` has the tag of a rule for its
/// name.
proof fn lemma_countries_n(b: char)
    ensures
        country_of_letters('N', b) matches Some(name) ==> !is_rule_tag(name),
{
    reveal_strlit("Night Flight");
    reveal_strlit("High Speed");
    reveal_strlit("Cold Battery");
    reveal_strlit("Heavy Load");
    reveal_strlit("Low Battery");
    reveal_strlit("High Altitude");
    reveal_strlit("Long Distance");
    reveal_strlit("Long Flight");
    reveal_strlit("Short Flight");
    reveal_strlit("Aggressive Flying");
    reveal_strlit("No GPS");
    reveal_strlit("Namibia");
    reveal_strlit("Nauru");
    reveal_strlit("Nepal");
    reveal_strlit("Netherlands");
    reveal_strlit("New Caledonia");
    reveal_strlit("New Zealand");
    reveal_strlit("Nicaragua");
    reveal_strlit("Niger");
    reveal_strlit("Nigeria");
    reveal_strlit("Niue");
    reveal_strlit("Norfolk Island");
    reveal_strlit("Norway");
    assert("Night Flight"@.len() == 12);
    assert("High Speed"@.len() == 10);
    assert("Cold Battery"@.len() == 12);
    assert("Heavy Load"@.len() == 10);
    assert("Low Battery"@.len() == 11);
    assert("High Altitude"@.len() == 13);
    assert("Long Distance"@.len() == 13);
    assert("Long Flight"@.len() == 11);
    assert("Short Flight"@.len() == 12);
    assert("Aggressive Flying"@.len() == 17);
    assert("No GPS"@.len() == 6);
    assert("Namibia"@.len() == 7);
    assert(!is_rule_tag("Namibia"@));
    assert("Nauru"@.len() == 5);
    assert(!is_rule_tag("Nauru"@));
    assert("Nepal"@.len() == 5);
    assert(!is_rule_tag("Nepal"@));
    assert("Netherlands"@.len() == 11);
    assert("Netherlands"@[0] == 'N' && "Low Battery"@[0] == 'L');
    assert("Netherlands"@[0] == 'N' && "Long Flight"@[0] == 'L');
    assert(!is_rule_tag("Netherlands"@));
    assert("New Caledonia"@.len() == 13);
    assert("New Caledonia"@[0] == 'N' && "High Altitude"@[0] == 'H');
    assert("New Caledonia"@[0] == 'N' && "Long Distance"@[0] == 'L');
    assert(!is_rule_tag("New Caledonia"@));
    assert("New Zealand"@.len() == 11);
    assert("New Zealand"@[0] == 'N' && "Low Battery"@[0] == 'L');
    assert("New Zealand"@[0] == 'N' && "Long Flight"@[0] == 'L');
    assert(!is_rule_tag("New Zealand"@));
    assert("Nicaragua"@.len() == 9);
    assert(!is_rule_tag("Nicaragua"@));
    assert("Niger"@.len() == 5);
    assert(!is_rule_tag("Niger"@));
    assert("Nigeria"@.len() == 7);
    assert(!is_rule_tag("Nigeria"@));
    assert("Niue"@.len() == 4);
    assert(!is_rule_tag("Niue"@));
    assert("Norfolk Island"@.len() == 14);
    assert(!is_rule_tag("Norfolk Island"@));
    assert("Norway"@.len() == 6);
    assert("Norway"@[2] == 'r' && "No GPS"@[2] == ' ');
    assert(!is_rule_tag("Norway"@));
}

/// No country whose code begins with `O` has the tag of a rule for its
/// name.
proof fn lemma_countries_o(b: char)
    ensures
        country_of_letters('O', b) matches Some(name) ==> !is_rule_tag(name),
{
    reveal_strlit("Night Flight");
    reveal_strlit("High Speed");
    reveal_strlit("Cold Battery");
    reveal_strlit("Heavy Load");
    reveal_strlit("Low Battery");
    reveal_strlit("High Altitude");
    reveal_strlit("Long Distance");
    reveal_strlit("Long Flight");
    reveal_strlit("Short Flight");
    reveal_strlit("Aggressive Flying");
    reveal_strlit("No GPS");
    reveal_strlit("Oman");
    assert("Night Flight"@.len() == 12);
    assert("High Speed"@.len() == 10);
    assert("Cold Battery"@.len() == 12);
    assert("Heavy Load"@.len() == 10);
    assert("Low Battery"@.len() == 11);
    assert("High Altitude"@.len() == 13);
    assert("Long Distance"@.len() == 13);
    assert("Long Flight"@.len() == 11);
    assert("Short Flight"@.len() == 12);
    assert("Aggressive Flying"@.len() == 17);
    assert("No GPS"@.len() == 6);
    assert("Oman"@.len() == 4);
    assert(!is_rule_tag("Oman"@));
}

/// No country whose code begins with `P` has the tag of a rule for its
/// name.
proof fn lemma_countries_p(b: char)
    ensures
        country_of_letters('P', b) matches Some(name) ==> !is_rule_tag(name),
{
    reveal_strlit("Night Flight");
    reveal_strlit("High Speed");
    reveal_strlit("Cold Battery");
    reveal_strlit("Heavy Load");
    reveal_strlit("Low Battery");
    reveal_strlit("High Altitude");
    reveal_strlit("Long Distance");
    reveal_strlit("Long Flight");
    reveal_strlit("Short Flight");
    reveal_strlit("Aggressive Flying");
    reveal_strlit("No GPS");
    reveal_strlit("French Polynesia");
    reveal_strlit("Pakistan");
    reveal_strlit("Palau");
    reveal_strlit("Palestine");
    reveal_strlit("Panama");
    reveal_strlit("Papua New Guinea");
    reveal_strlit("Paraguay");
    reveal_strlit("Peru");
    reveal_strlit("Philippines");
    reveal_strlit("Poland");
    reveal_strlit("Portugal");
    reveal_strlit("Puerto Rico");
    reveal_strlit("Saint Pierre and Miquelon");
    assert("Night Flight"@.len() == 12);
    assert("High Speed"@.len() == 10);
    assert("Cold Battery"@.len() == 12);
    assert("Heavy Load"@.len() == 10);
    assert("Low Battery"@.len() == 11);
    assert("High Altitude"@.len() == 13);
    assert("Long Distance"@.len() == 13);
    assert("Long Flight"@.len() == 11);
    assert("Short Flight"@.len() == 12);
    assert("Aggressive Flying"@.len() == 17);
    assert("No GPS"@.len() == 6);
    assert("French Polynesia"@.len() == 16);
    assert(!is_rule_tag("French Polynesia"@));
    assert("Pakistan"@.len() == 8);
    assert(!is_rule_tag("Pakistan"@));
    assert("Palau"@.len() == 5);
    assert(!is_rule_tag("Palau"@));
    assert("Palestine"@.len() == 9);
    assert(!is_rule_tag("Palestine"@));
    assert("Panama"@.len() == 6);
    assert("Panama"@[0] == 'P' && "No GPS"@[0] == 'N');
    assert(!is_rule_tag("Panama"@));
    assert("Papua New Guinea"@.len() == 16);
    assert(!is_rule_tag("Papua New Guinea"@));
    assert("Paraguay"@.len() == 8);
    assert(!is_rule_tag("Paraguay"@));
    assert("Peru"@.len() == 4);
    assert(!is_rule_tag("Peru"@));
    assert("Philippines"@.len() == 11);
    assert("Philippines"@[0] == 'P' && "Low Battery"@[0] == 'L');
    assert("Philippines"@[0] == 'P' && "Long Flight"@[0] == 'L');
    assert(!is_rule_tag("Philippines"@));
    assert("Poland"@.len() == 6);
    assert("Poland"@[0] == 'P' && "No GPS"@[0] == 'N');
    assert(!is_rule_tag("Poland"@));
    assert("Portugal"@.len() == 8);
    assert(!is_rule_tag("Portugal"@));
    assert("Puerto Rico"@.len() == 11);
    assert("Puerto Rico"@[0] == 'P' && "Low Battery"@[0] == 'L');
    assert("Puerto Rico"@[0] == 'P' && "Long Flight"@[0] == 'L');
    assert(!is_rule_tag("Puerto Rico"@));
    assert("Saint Pierre and Miquelon"@.len() == 25);
    assert(!is_rule_tag("Saint Pierre and Miquelon"@));
}

/// No country whose code begins with `Q` has the tag of a rule for its
/// name.
proof fn lemma_countries_q(b: char)
    ensures
        country_of_letters('Q', b) matches Some(name) ==> !is_rule_tag(name),
{
    reveal_strlit("Night Flight");
    reveal_strlit("High Speed");
    reveal_strlit("Cold Battery");
    reveal_strlit("Heavy Load");
    reveal_strlit("Low Battery");
    reveal_strlit("High Altitude");
    reveal_strlit("Long Distance");
    reveal_strlit("Long Flight");
    reveal_strlit("Short Flight");
    reveal_strlit("Aggressive Flying");
    reveal_strlit("No GPS");
    reveal_strlit("Qatar");
    assert("Night Flight"@.len() == 12);
    assert("High Speed"@.len() == 10);
    assert("Cold Battery"@.len() == 12);
    assert("Heavy Load"@.len() == 10);
    assert("Low Battery"@.len() == 11);
    assert("High Altitude"@.len() == 13);
    assert("Long Distance"@.len() == 13);
    assert("Long Flight"@.len() == 11);
    assert("Short Flight"@.len() == 12);
    assert("Aggressive Flying"@.len() == 17);
    assert("No GPS"@.len() == 6);
    assert("Qatar"@.len() == 5);
    assert(!is_rule_tag("Qatar"@));
}

/// No country whose code begins with `R` has the tag of a rule for its
/// name.
proof fn lemma_countries_r(b: char)
    ensures
        country_of_letters('R', b) matches Some(name) ==> !is_rule_tag(name),
{
    reveal_strlit("Night Flight");
    reveal_strlit("High Speed");
    reveal_strlit("Cold Battery");
    reveal_strlit("Heavy Load");
    reveal_strlit("Low Battery");
    reveal_strlit("High Altitude");
    reveal_strlit("Long Distance");
    reveal_strlit("Long Flight");
    reveal_strlit("Short Flight");
    reveal_strlit("Aggressive Flying");
    reveal_strlit("No GPS");
    reveal_strlit("Romania");
    reveal_strlit("Russia");
    reveal_strlit("Rwanda");
    reveal_strlit("Réunion");
    reveal_strlit("Serbia");
    assert("Night Flight"@.len() == 12);
    assert("High Speed"@.len() == 10);
    assert("Cold Battery"@.len() == 12);
    assert("Heavy Load"@.len() == 10);
    assert("Low Battery"@.len() == 11);
    assert("High Altitude"@.len() == 13);
    assert("Long Distance"@.len() == 13);
    assert("Long Flight"@.len() == 11);
    assert("Short Flight"@.len() == 12);
    assert("Aggressive Flying"@.len() == 17);
    assert("No GPS"@.len() == 6);
    assert("Romania"@.len() == 7);
    assert(!is_rule_tag("Romania"@));
    assert("Russia"@.len() == 6);
    assert("Russia"@[0] == 'R' && "No GPS"@[0] == 'N');
    assert(!is_rule_tag("Russia"@));
    assert("Rwanda"@.len() == 6);
    assert("Rwanda"@[0] == 'R' && "No GPS"@[0] == 'N');
    assert(!is_rule_tag("Rwanda"@));
    assert("Réunion"@.len() == 7);
    assert(!is_rule_tag("Réunion"@));
    assert("Serbia"@.len() == 6);
    assert("Serbia"@[0] == 'S' && "No GPS"@[0] == 'N');
    assert(!is_rule_tag("Serbia"@));
}

/// No country whose code begins with `S` has the tag of a rule for its
/// name.
proof fn lemma_countries_s(b: char)
    ensures
        country_of_letters('S', b) matches Some(name) ==> !is_rule_tag(name),
{
    reveal_strlit("Night Flight");
    reveal_strlit("High Speed");
    reveal_strlit("Cold Battery");
    reveal_strlit("Heavy Load");
    reveal_strlit("Low Battery");
    reveal_strlit("High Altitude");
    reveal_strlit("Long Distance");
    reveal_strlit("Long Flight");
    reveal_strlit("Short Flight");
    reveal_strlit("Aggressive Flying");
    reveal_strlit("No GPS");
    reveal_strlit("El Salvador");
    reveal_strlit("Eswatini");
    reveal_strlit("Saint Helena");
    reveal_strlit("San Marino");
    reveal_strlit("Saudi Arabia");
    reveal_strlit("Senegal");
    reveal_strlit("Seychelles");
    reveal_strlit("Sierra Leone");
    reveal_strlit("Singapore");
    reveal_strlit("Sint Maarten");
    reveal_strlit("Slovakia");
    reveal_strlit("Slovenia");
    reveal_strlit("Solomon Islands");
    reveal_strlit("Somalia");
    reveal_strlit("South Sudan");
    reveal_strlit("Sudan");
    reveal_strlit("Suriname");
    reveal_strlit("Sweden");
    reveal_strlit("Syria");
    reveal_strlit("São Tomé and Príncipe");
    assert("Night Flight"@.len() == 12);
    assert("High Speed"@.len() == 10);
    assert("Cold Battery"@.len() == 12);
    assert("Heavy Load"@.len() == 10);
    assert("Low Battery"@.len() == 11);
    assert("High Altitude"@.len() == 13);
    assert("Long Distance"@.len() == 13);
    assert("Long Flight"@.len() == 11);
    assert("Short Flight"@.len() == 12);
    assert("Aggressive Flying"@.len() == 17);
    assert("No GPS"@.len() == 6);
    assert("El Salvador"@.len() == 11);
    assert("El Salvador"@[0] == 'E' && "Low Battery"@[0] == 'L');
    assert("El Salvador"@[0] == 'E' && "Long Flight"@[0] == 'L');
    assert(!is_rule_tag("El Salvador"@));
    assert("Eswatini"@.len() == 8);
    assert(!is_rule_tag("Eswatini"@));
    assert("Saint Helena"@.len() == 12);
    assert("Saint Helena"@[0] == 'S' && "Night Flight"@[0] == 'N');
    assert("Saint Helena"@[0] == 'S' && "Cold Battery"@[0] == 'C');
    assert("Saint Helena"@[1] == 'a' && "Short Flight"@[1] == 'h');
    assert(!is_rule_tag("Saint Helena"@));
    assert("San Marino"@.len() == 10);
    assert("San Marino"@[0] == 'S' && "High Speed"@[0] == 'H');
    assert("San Marino"@[0] == 'S' && "Heavy Load"@[0] == 'H');
    assert(!is_rule_tag("San Marino"@));
    assert("Saudi Arabia"@.len() == 12);
    assert("Saudi Arabia"@[0] == 'S' && "Night Flight"@[0] == 'N');
    assert("Saudi Arabia"@[0] == 'S' && "Cold Battery"@[0] == 'C');
    assert("Saudi Arabia"@[1] == 'a' && "Short Flight"@[1] == 'h');
    assert(!is_rule_tag("Saudi Arabia"@));
    assert("Senegal"@.len() == 7);
    assert(!is_rule_tag("Senegal"@));
    assert("Seychelles"@.len() == 10);
    assert("Seychelles"@[0] == 'S' && "High Speed"@[0] == 'H');
    assert("Seychelles"@[0] == 'S' && "Heavy Load"@[0] == 'H');
    assert(!is_rule_tag("Seychelles"@));
    assert("Sierra Leone"@.len() == 12);
    assert("Sierra Leone"@[0] == 'S' && "Night Flight"@[0] == 'N');
    assert("Sierra Leone"@[0] == 'S' && "Cold Battery"@[0] == 'C');
    assert("Sierra Leone"@[1] == 'i' && "Short Flight"@[1] == 'h');
    assert(!is_rule_tag("Sierra Leone"@));
    assert("Singapore"@.len() == 9);
    assert(!is_rule_tag("Singapore"@));
    assert("Sint Maarten"@.len() == 12);
    assert("Sint Maarten"@[0] == 'S' && "Night Flight"@[0] == 'N');
    assert("Sint Maarten"@[0] == 'S' && "Cold Battery"@[0] == 'C');
    assert("Sint Maarten"@[1] == 'i' && "Short Flight"@[1] == 'h');
    assert(!is_rule_tag("Sint Maarten"@));
    assert("Slovakia"@.len() == 8);
    assert(!is_rule_tag("Slovakia"@));
    assert("Slovenia"@.len() == 8);
    assert(!is_rule_tag("Slovenia"@));
    assert("Solomon Islands"@.len() == 15);
    assert(!is_rule_tag("Solomon Islands"@));
    assert("Somalia"@.len() == 7);
    assert(!is_rule_tag("Somalia"@));
    assert("South Sudan"@.len() == 11);
    assert("South Sudan"@[0] == 'S' && "Low Battery"@[0] == 'L');
    assert("South Sudan"@[0] == 'S' && "Long Flight"@[0] == 'L');
    assert(!is_rule_tag("South Sudan"@));
    assert("Sudan"@.len() == 5);
    assert(!is_rule_tag("Sudan"@));
    assert("Suriname"@.len() == 8);
    assert(!is_rule_tag("Suriname"@));
    assert("Sweden"@.len() == 6);
    assert("Sweden"@[0] == 'S' && "No GPS"@[0] == 'N');
    assert(!is_rule_tag("Sweden"@));
    assert("Syria"@.len() == 5);
    assert(!is_rule_tag("Syria"@));
    assert("São Tomé and Príncipe"@.len() == 21);
    assert(!is_rule_tag("São Tomé and Príncipe"@));
}

/// No country whose code begins with `T` has the tag of a rule for its
/// name.
proof fn lemma_countries_t(b: char)
    ensures
        country_of_letters('T', b) matches Some(name) ==> !is_rule_tag(name),
{
    reveal_strlit("Night Flight");
    reveal_strlit("High Speed");
    reveal_strlit("Cold Battery");
    reveal_strlit("Heavy Load");
    reveal_strlit("Low Battery");
    reveal_strlit("High Altitude");
    reveal_strlit("Long Distance");
    reveal_strlit("Long Flight");
    reveal_strlit("Short Flight");
    reveal_strlit("Aggressive Flying");
    reveal_strlit("No GPS");
    reveal_strlit("Chad");
    reveal_strlit("Taiwan");
    reveal_strlit("Tajikistan");
    reveal_strlit("Tanzania");
    reveal_strlit("Thailand");
    reveal_strlit("Timor-Leste");
    reveal_strlit("Togo");
    reveal_strlit("Tokelau");
    reveal_strlit("Tonga");
    reveal_strlit("Trinidad and Tobago");
    reveal_strlit("Tunisia");
    reveal_strlit("Turkey");
    reveal_strlit("Turkmenistan");
    reveal_strlit("Turks and Caicos");
    reveal_strlit("Tuvalu");
    assert("Night Flight"@.len() == 12);
    assert("High Speed"@.len() == 10);
    assert("Cold Battery"@.len() == 12);
    assert("Heavy Load"@.len() == 10);
    assert("Low Battery"@.len() == 11);
    assert("High Altitude"@.len() == 13);
    assert("Long Distance"@.len() == 13);
    assert("Long Flight"@.len() == 11);
    assert("Short Flight"@.len() == 12);
    assert("Aggressive Flying"@.len() == 17);
    assert("No GPS"@.len() == 6);
    assert("Chad"@.len() == 4);
    assert(!is_rule_tag("Chad"@));
    assert("Taiwan"@.len() == 6);
    assert("Taiwan"@[0] == 'T' && "No GPS"@[0] == 'N');
    assert(!is_rule_tag("Taiwan"@));
    assert("Tajikistan"@.len() == 10);
    assert("Tajikistan"@[0] == 'T' && "High Speed"@[0] == 'H');
    assert("Tajikistan"@[0] == 'T' && "Heavy Load"@[0] == 'H');
    assert(!is_rule_tag("Tajikistan"@));
    assert("Tanzania"@.len() == 8);
    assert(!is_rule_tag("Tanzania"@));
    assert("Thailand"@.len() == 8);
    assert(!is_rule_tag("Thailand"@));
    assert("Timor-Leste"@.len() == 11);
    assert("Timor-Leste"@[0] == 'T' && "Low Battery"@[0] == 'L');
    assert("Timor-Leste"@[0] == 'T' && "Long Flight"@[0] == 'L');
    assert(!is_rule_tag("Timor-Leste"@));
    assert("Togo"@.len() == 4);
    assert(!is_rule_tag("Togo"@));
    assert("Tokelau"@.len() == 7);
    assert(!is_rule_tag("Tokelau"@));
    assert("Tonga"@.len() == 5);
    assert(!is_rule_tag("Tonga"@));
    assert("Trinidad and Tobago"@.len() == 19);
    assert(!is_rule_tag("Trinidad and Tobago"@));
    assert("Tunisia"@.len() == 7);
    assert(!is_rule_tag("Tunisia"@));
    assert("Turkey"@.len() == 6);
    assert("Turkey"@[0] == 'T' && "No GPS"@[0] == 'N');
    assert(!is_rule_tag("Turkey"@));
    assert("Turkmenistan"@.len() == 12);
    assert("Turkmenistan"@[0] == 'T' && "Night Flight"@[0] == 'N');
    assert("Turkmenistan"@[0] == 'T' && "Cold Battery"@[0] == 'C');
    assert("Turkmenistan"@[0] == 'T' && "Short Flight"@[0] == 'S');
    assert(!is_rule_tag("Turkmenistan"@));
    assert("Turks and Caicos"@.len() == 16);
    assert(!is_rule_tag("Turks and Caicos"@));
    assert("Tuvalu"@.len() == 6);
    assert("Tuvalu"@[0] == 'T' && "No GPS"@[0] == 'N');
    assert(!is_rule_tag("Tuvalu"@));
}

/// No country whose code begins with `U` has the tag of a rule for its
/// name.
proof fn lemma_countries_u(b: char)
    ensures
        country_of_letters('U', b) matches Some(name) ==> !is_rule_tag(name),
{
    reveal_strlit("Night Flight");
    reveal_strlit("High Speed");
    reveal_strlit("Cold Battery");
    reveal_strlit("Heavy Load");
    reveal_strlit("Low Battery");
    reveal_strlit("High Altitude");
    reveal_strlit("Long Distance");
    reveal_strlit("Long Flight");
    reveal_strlit("Short Flight");
    reveal_strlit("Aggressive Flying");
    reveal_strlit("No GPS");
    reveal_strlit("Uganda");
    reveal_strlit("Ukraine");
    reveal_strlit("United States");
    reveal_strlit("Uruguay");
    reveal_strlit("Uzbekistan");
    assert("Night Flight"@.len() == 12);
    assert("High Speed"@.len() == 10);
    assert("Cold Battery"@.len() == 12);
    assert("Heavy Load"@.len() == 10);
    assert("Low Battery"@.len() == 11);
    assert("High Altitude"@.len() == 13);
    assert("Long Distance"@.len() == 13);
    assert("Long Flight"@.len() == 11);
    assert("Short Flight"@.len() == 12);
    assert("Aggressive Flying"@.len() == 17);
    assert("No GPS"@.len() == 6);
    assert("Uganda"@.len() == 6);
    assert("Uganda"@[0] == 'U' && "No GPS"@[0] == 'N');
    assert(!is_rule_tag("Uganda"@));
    assert("Ukraine"@.len() == 7);
    assert(!is_rule_tag("Ukraine"@));
    assert("United States"@.len() == 13);
    assert("United States"@[0] == 'U' && "High Altitude"@[0] == 'H');
    assert("United States"@[0] == 'U' && "Long Distance"@[0] == 'L');
    assert(!is_rule_tag("United States"@));
    assert("Uruguay"@.len() == 7);
    assert(!is_rule_tag("Uruguay"@));
    assert("Uzbekistan"@.len() == 10);
    assert("Uzbekistan"@[0] == 'U' && "High Speed"@[0] == 'H');
    assert("Uzbekistan"@[0] == 'U' && "Heavy Load"@[0] == 'H');
    assert(!is_rule_tag("Uzbekistan"@));
}

/// No country whose code begins with `V` has the tag of a rule for its
/// name.
proof fn lemma_countries_v(b: char)
    ensures
        country_of_letters('V', b) matches Some(name) ==> !is_rule_tag(name),
{
    reveal_strlit("Night Flight");
    reveal_strlit("High Speed");
    reveal_strlit("Cold Battery");
    reveal_strlit("Heavy Load");
    reveal_strlit("Low Battery");
    reveal_strlit("High Altitude");
    reveal_strlit("Long Distance");
    reveal_strlit("Long Flight");
    reveal_strlit("Short Flight");
    reveal_strlit("Aggressive Flying");
    reveal_strlit("No GPS");
    reveal_strlit("British Virgin Islands");
    reveal_strlit("Saint Vincent");
    reveal_strlit("US Virgin Islands");
    reveal_strlit("Vanuatu");
    reveal_strlit("Vatican City");
    reveal_strlit("Venezuela");
    reveal_strlit("Vietnam");
    assert("Night Flight"@.len() == 12);
    assert("High Speed"@.len() == 10);
    assert("Cold Battery"@.len() == 12);
    assert("Heavy Load"@.len() == 10);
    assert("Low Battery"@.len() == 11);
    assert("High Altitude"@.len() == 13);
    assert("Long Distance"@.len() == 13);
    assert("Long Flight"@.len() == 11);
    assert("Short Flight"@.len() == 12);
    assert("Aggressive Flying"@.len() == 17);
    assert("No GPS"@.len() == 6);
    assert("British Virgin Islands"@.len() == 22);
    assert(!is_rule_tag("British Virgin Islands"@));
    assert("Saint Vincent"@.len() == 13);
    assert("Saint Vincent"@[0] == 'S' && "High Altitude"@[0] == 'H');
    assert("Saint Vincent"@[0] == 'S' && "Long Distance"@[0] == 'L');
    assert(!is_rule_tag("Saint Vincent"@));
    assert("US Virgin Islands"@.len() == 17);
    assert("US Virgin Islands"@[0] == 'U' && "Aggressive Flying"@[0] == 'A');
    assert(!is_rule_tag("US Virgin Islands"@));
    assert("Vanuatu"@.len() == 7);
    assert(!is_rule_tag("Vanuatu"@));
    assert("Vatican City"@.len() == 12);
    assert("Vatican City"@[0] == 'V' && "Night Flight"@[0] == 'N');
    assert("Vatican City"@[0] == 'V' && "Cold Battery"@[0] == 'C');
    assert("Vatican City"@[0] == 'V' && "Short Flight"@[0] == 'S');
    assert(!is_rule_tag("Vatican City"@));
    assert("Venezuela"@.len() == 9);
    assert(!is_rule_tag("Venezuela"@));
    assert("Vietnam"@.len() == 7);
    assert(!is_rule_tag("Vietnam"@));
}

/// No country whose code begins with `W` has the tag of a rule for its
/// name.
proof fn lemma_countries_w(b: char)
    ensures
        country_of_letters('W', b) matches Some(name) ==> !is_rule_tag(name),
{
    reveal_strlit("Night Flight");
    reveal_strlit("High Speed");
    reveal_strlit("Cold Battery");
    reveal_strlit("Heavy Load");
    reveal_strlit("Low Battery");
    reveal_strlit("High Altitude");
    reveal_strlit("Long Distance");
    reveal_strlit("Long Flight");
    reveal_strlit("Short Flight");
    reveal_strlit("Aggressive Flying");
    reveal_strlit("No GPS");
    reveal_strlit("Samoa");
    reveal_strlit("Wallis and Futuna");
    assert("Night Flight"@.len() == 12);
    assert("High Speed"@.len() == 10);
    assert("Cold Battery"@.len() == 12);
    assert("Heavy Load"@.len() == 10);
    assert("Low Battery"@.len() == 11);
    assert("High Altitude"@.len() == 13);
    assert("Long Distance"@.len() == 13);
    assert("Long Flight"@.len() == 11);
    assert("Short Flight"@.len() == 12);
    assert("Aggressive Flying"@.len() == 17);
    assert("No GPS"@.len() == 6);
    assert("Samoa"@.len() == 5);
    assert(!is_rule_tag("Samoa"@));
    assert("Wallis and Futuna"@.len() == 17);
    assert("Wallis and Futuna"@[0] == 'W' && "Aggressive Flying"@[0] == 'A');
    assert(!is_rule_tag("Wallis and Futuna"@));
}

/// No country whose code begins with `X` has the tag of a rule for its
/// name.
proof fn lemma_countries_x(b: char)
    ensures
        country_of_letters('X', b) matches Some(name) ==> !is_rule_tag(name),
{
    reveal_strlit("Night Flight");
    reveal_strlit("High Speed");
    reveal_strlit("Cold Battery");
    reveal_strlit("Heavy Load");
    reveal_strlit("Low Battery");
    reveal_strlit("High Altitude");
    reveal_strlit("Long Distance");
    reveal_strlit("Long Flight");
    reveal_strlit("Short Flight");
    reveal_strlit("Aggressive Flying");
    reveal_strlit("No GPS");
    reveal_strlit("Kosovo");
    assert("Night Flight"@.len() == 12);
    assert("High Speed"@.len() == 10);
    assert("Cold Battery"@.len() == 12);
    assert("Heavy Load"@.len() == 10);
    assert("Low Battery"@.len() == 11);
    assert("High Altitude"@.len() == 13);
    assert("Long Distance"@.len() == 13);
    assert("Long Flight"@.len() == 11);
    assert("Short Flight"@.len() == 12);
    assert("Aggressive Flying"@.len() == 17);
    assert("No GPS"@.len() == 6);
    assert("Kosovo"@.len() == 6);
    assert("Kosovo"@[0] == 'K' && "No GPS"@[0] == 'N');
    assert(!is_rule_tag("Kosovo"@));
}

/// No country whose code begins with `Y` has the tag of a rule for its
/// name.
proof fn lemma_countries_y(b: char)
    ensures
        country_of_letters('Y', b) matches Some(name) ==> !is_rule_tag(name),
{
    reveal_strlit("Night Flight");
    reveal_strlit("High Speed");
    reveal_strlit("Cold Battery");
    reveal_strlit("Heavy Load");
    reveal_strlit("Low Battery");
    reveal_strlit("High Altitude");
    reveal_strlit("Long Distance");
    reveal_strlit("Long Flight");
    reveal_strlit("Short Flight");
    reveal_strlit("Aggressive Flying");
    reveal_strlit("No GPS");
    reveal_strlit("Mayotte");
    reveal_strlit("Yemen");
    assert("Night Flight"@.len() == 12);
    assert("High Speed"@.len() == 10);
    assert("Cold Battery"@.len() == 12);
    assert("Heavy Load"@.len() == 10);
    assert("Low Battery"@.len() == 11);
    assert("High Altitude"@.len() == 13);
    assert("Long Distance"@.len() == 13);
    assert("Long Flight"@.len() == 11);
    assert("Short Flight"@.len() == 12);
    assert("Aggressive Flying"@.len() == 17);
    assert("No GPS"@.len() == 6);
    assert("Mayotte"@.len() == 7);
    assert(!is_rule_tag("Mayotte"@));
    assert("Yemen"@.len() == 5);
    assert(!is_rule_tag("Yemen"@));
}

/// No country whose code begins with `Z` has the tag of a rule for its
/// name.
proof fn lemma_countries_z(b: char)
    ensures
        country_of_letters('Z', b) matches Some(name) ==> !is_rule_tag(name),
{
    reveal_strlit("Night Flight");
    reveal_strlit("High Speed");
    reveal_strlit("Cold Battery");
    reveal_strlit("Heavy Load");
    reveal_strlit("Low Battery");
    reveal_strlit("High Altitude");
    reveal_strlit("Long Distance");
    reveal_strlit("Long Flight");
    reveal_strlit("Short Flight");
    reveal_strlit("Aggressive Flying");
    reveal_strlit("No GPS");
    reveal_strlit("South Africa");
    reveal_strlit("Zambia");
    reveal_strlit("Zimbabwe");
    assert("Night Flight"@.len() == 12);
    assert("High Speed"@.len() == 10);
    assert("Cold Battery"@.len() == 12);
    assert("Heavy Load"@.len() == 10);
    assert("Low Battery"@.len() == 11);
    assert("High Altitude"@.len() == 13);
    assert("Long Distance"@.len() == 13);
    assert("Long Flight"@.len() == 11);
    assert("Short Flight"@.len() == 12);
    assert("Aggressive Flying"@.len() == 17);
    assert("No GPS"@.len() == 6);
    assert("South Africa"@.len() == 12);
    assert("South Africa"@[0] == 'S' && "Night Flight"@[0] == 'N');
    assert("South Africa"@[0] == 'S' && "Cold Battery"@[0] == 'C');
    assert("South Africa"@[1] == 'o' && "Short Flight"@[1] == 'h');
    assert(!is_rule_tag("South Africa"@));
    assert("Zambia"@.len() == 6);
    assert("Zambia"@[0] == 'Z' && "No GPS"@[0] == 'N');
    assert(!is_rule_tag("Zambia"@));
    assert("Zimbabwe"@.len() == 8);
    assert(!is_rule_tag("Zimbabwe"@));
}

/// No country has the tag of a rule for its name.
pub proof fn lemma_no_country_is_named_like_a_rule(a: char, b: char)
    ensures
        country_of_letters(a, b) matches Some(name) ==> !is_rule_tag(name),
{
    lemma_countries_a(b);
    lemma_countries_b(b);
    lemma_countries_c(b);
    lemma_countries_d(b);
    lemma_countries_e(b);
    lemma_countries_f(b);
    lemma_countries_g(b);
    lemma_countries_h(b);
    lemma_countries_i(b);
    lemma_countries_j(b);
    lemma_countries_k(b);
    lemma_countries_l(b);
    lemma_countries_m(b);
    lemma_countries_n(b);
    lemma_countries_o(b);
    lemma_countries_p(b);
    lemma_countries_q(b);
    lemma_countries_r(b);
    lemma_countries_s(b);
    lemma_countries_t(b);
    lemma_countries_u(b);
    lemma_countries_v(b);
    lemma_countries_w(b);
    lemma_countries_x(b);
    lemma_countries_y(b);
    lemma_countries_z(b);
}

/// No continent has the tag of a rule for its name.
pub proof fn lemma_no_continent_is_named_like_a_rule(a: char, b: char)
    ensures
        continent_of_letters(a, b) matches Some(name) ==> !is_rule_tag(name),
{
    reveal_strlit("Night Flight");
    reveal_strlit("High Speed");
    reveal_strlit("Cold Battery");
    reveal_strlit("Heavy Load");
    reveal_strlit("Low Battery");
    reveal_strlit("High Altitude");
    reveal_strlit("Long Distance");
    reveal_strlit("Long Flight");
    reveal_strlit("Short Flight");
    reveal_strlit("Aggressive Flying");
    reveal_strlit("No GPS");
    reveal_strlit("Africa");
    reveal_strlit("Antarctica");
    reveal_strlit("Asia");
    reveal_strlit("Europe");
    reveal_strlit("North America");
    reveal_strlit("Oceania");
    reveal_strlit("South America");
    assert("Night Flight"@.len() == 12);
    assert("High Speed"@.len() == 10);
    assert("Cold Battery"@.len() == 12);
    assert("Heavy Load"@.len() == 10);
    assert("Low Battery"@.len() == 11);
    assert("High Altitude"@.len() == 13);
    assert("Long Distance"@.len() == 13);
    assert("Long Flight"@.len() == 11);
    assert("Short Flight"@.len() == 12);
    assert("Aggressive Flying"@.len() == 17);
    assert("No GPS"@.len() == 6);
    assert("Africa"@.len() == 6);
    assert("Africa"@[0] == 'A' && "No GPS"@[0] == 'N');
    assert(!is_rule_tag("Africa"@));
    assert("Antarctica"@.len() == 10);
    assert("Antarctica"@[0] == 'A' && "High Speed"@[0] == 'H');
    assert("Antarctica"@[0] == 'A' && "Heavy Load"@[0] == 'H');
    assert(!is_rule_tag("Antarctica"@));
    assert("Asia"@.len() == 4);
    assert(!is_rule_tag("Asia"@));
    assert("Europe"@.len() == 6);
    assert("Europe"@[0] == 'E' && "No GPS"@[0] == 'N');
    assert(!is_rule_tag("Europe"@));
    assert("North America"@.len() == 13);
    assert("North America"@[0] == 'N' && "High Altitude"@[0] == 'H');
    assert("North America"@[0] == 'N' && "Long Distance"@[0] == 'L');
    assert(!is_rule_tag("North America"@));
    assert("Oceania"@.len() == 7);
    assert(!is_rule_tag("Oceania"@));
    assert("South America"@.len() == 13);
    assert("South America"@[0] == 'S' && "High Altitude"@[0] == 'H');
    assert("South America"@[0] == 'S' && "Long Distance"@[0] == 'L');
    assert(!is_rule_tag("South America"@));
}

} // verus!
