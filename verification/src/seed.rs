//! Bootstrap seeding.
//!
//! On every startup the store seeds its reference tables, each only when it
//! is empty: one administrator account, five default categories, five default
//! supplier sectors, and the 193 member states of the United Nations with
//! their ISO 3166 alpha-2 codes.  Re-running the bootstrap on a populated
//! database leaves every seed table unchanged.

use vstd::prelude::*;

use crate::auth::bcrypt_matches;
use crate::auth::hash_password;
use crate::categories::cat_name_le;
use crate::countries::country_name_le;
use crate::domain::Category;
use crate::domain::Country;
use crate::domain::SupplierSector;
use crate::error::CmdError;
use crate::ids::fresh_id;
use crate::ids::now_rfc3339;
use crate::seqs::lemma_insert_keeps_exists;
use crate::store::first_not;
use crate::store::Store;
use crate::suppliers::sector_name_le;

verus! {

/// A category row carrying the given name.
pub open spec fn cat_name_is(n: Seq<char>) -> spec_fn(Category) -> bool {
    |c: Category| c.name@ == n
}

/// Some category row carries the given name.
pub open spec fn has_category_name(s: Seq<Category>, n: Seq<char>) -> bool {
    exists|i: int| 0 <= i < s.len() && cat_name_is(n)(#[trigger] s[i])
}

/// A sector row carrying the given name.
pub open spec fn sector_name_is(n: Seq<char>) -> spec_fn(SupplierSector) -> bool {
    |x: SupplierSector| x.name@ == n
}

/// Some sector row carries the given name.
pub open spec fn has_sector_name(s: Seq<SupplierSector>, n: Seq<char>) -> bool {
    exists|i: int| 0 <= i < s.len() && sector_name_is(n)(#[trigger] s[i])
}

/// A country row carrying the given name and code.
pub open spec fn country_pair_is(n: Seq<char>, c: Seq<char>) -> spec_fn(Country) -> bool {
    |x: Country| x.name@ == n && x.code is Some && x.code->0@ == c
}

/// Some country row carries the given name and code.
pub open spec fn has_country_pair(s: Seq<Country>, n: Seq<char>, c: Seq<char>) -> bool {
    exists|i: int| 0 <= i < s.len() && country_pair_is(n, c)(#[trigger] s[i])
}

/// Every country row carries a two-character code.
pub open spec fn country_codes_two(s: Seq<Country>) -> bool {
    forall|i: int| 0 <= i < s.len() ==> (#[trigger] s[i]).code is Some && s[i].code->0@.len() == 2
}

/// One block of the fixed country list.
fn country_seed_part1() -> (r: Vec<(String, String)>)
    ensures
        r@.len() == 50,
        forall|i: int| 0 <= i < r@.len() ==> (#[trigger] r@[i]).1@.len() == 2,
{
    let mut v: Vec<(String, String)> = Vec::new();
    v.push((String::from_str("Австралия"), String::from_str("AU")));
    v.push((String::from_str("Австрия"), String::from_str("AT")));
    v.push((String::from_str("Азербайджан"), String::from_str("AZ")));
    v.push((String::from_str("Албания"), String::from_str("AL")));
    v.push((String::from_str("Алжир"), String::from_str("DZ")));
    v.push((String::from_str("Ангола"), String::from_str("AO")));
    v.push((String::from_str("Андорра"), String::from_str("AD")));
    v.push((String::from_str("Антигуа и Барбуда"), String::from_str("AG")));
    v.push((String::from_str("Аргентина"), String::from_str("AR")));
    v.push((String::from_str("Армения"), String::from_str("AM")));
    v.push((String::from_str("Афганистан"), String::from_str("AF")));
    v.push((String::from_str("Багамы"), String::from_str("BS")));
    v.push((String::from_str("Бангладеш"), String::from_str("BD")));
    v.push((String::from_str("Барбадос"), String::from_str("BB")));
    v.push((String::from_str("Бахрейн"), String::from_str("BH")));
    v.push((String::from_str("Беларусь"), String::from_str("BY")));
    v.push((String::from_str("Белиз"), String::from_str("BZ")));
    v.push((String::from_str("Бельгия"), String::from_str("BE")));
    v.push((String::from_str("Бенин"), String::from_str("BJ")));
    v.push((String::from_str("Болгария"), String::from_str("BG")));
    v.push((String::from_str("Боливия"), String::from_str("BO")));
    v.push((String::from_str("Босния и Герцеговина"), String::from_str("BA")));
    v.push((String::from_str("Ботсвана"), String::from_str("BW")));
    v.push((String::from_str("Бразилия"), String::from_str("BR")));
    v.push((String::from_str("Бруней"), String::from_str("BN")));
    v.push((String::from_str("Буркина-Фасо"), String::from_str("BF")));
    v.push((String::from_str("Бурунди"), String::from_str("BI")));
    v.push((String::from_str("Бутан"), String::from_str("BT")));
    v.push((String::from_str("Вануату"), String::from_str("VU")));
    v.push((String::from_str("Великобритания"), String::from_str("GB")));
    v.push((String::from_str("Венгрия"), String::from_str("HU")));
    v.push((String::from_str("Венесуэла"), String::from_str("VE")));
    v.push((String::from_str("Восточный Тимор"), String::from_str("TL")));
    v.push((String::from_str("Вьетнам"), String::from_str("VN")));
    v.push((String::from_str("Габон"), String::from_str("GA")));
    v.push((String::from_str("Гаити"), String::from_str("HT")));
    v.push((String::from_str("Гайана"), String::from_str("GY")));
    v.push((String::from_str("Гамбия"), String::from_str("GM")));
    v.push((String::from_str("Гана"), String::from_str("GH")));
    v.push((String::from_str("Гватемала"), String::from_str("GT")));
    v.push((String::from_str("Гвинея"), String::from_str("GN")));
    v.push((String::from_str("Гвинея-Бисау"), String::from_str("GW")));
    v.push((String::from_str("Германия"), String::from_str("DE")));
    v.push((String::from_str("Гондурас"), String::from_str("HN")));
    v.push((String::from_str("Гренада"), String::from_str("GD")));
    v.push((String::from_str("Греция"), String::from_str("GR")));
    v.push((String::from_str("Грузия"), String::from_str("GE")));
    v.push((String::from_str("Дания"), String::from_str("DK")));
    v.push((String::from_str("Джибути"), String::from_str("DJ")));
    v.push((String::from_str("Доминика"), String::from_str("DM")));
    proof {
        reveal_strlit("AU");
        reveal_strlit("AT");
        reveal_strlit("AZ");
        reveal_strlit("AL");
        reveal_strlit("DZ");
        reveal_strlit("AO");
        reveal_strlit("AD");
        reveal_strlit("AG");
        reveal_strlit("AR");
        reveal_strlit("AM");
        reveal_strlit("AF");
        reveal_strlit("BS");
        reveal_strlit("BD");
        reveal_strlit("BB");
        reveal_strlit("BH");
        reveal_strlit("BY");
        reveal_strlit("BZ");
        reveal_strlit("BE");
        reveal_strlit("BJ");
        reveal_strlit("BG");
        reveal_strlit("BO");
        reveal_strlit("BA");
        reveal_strlit("BW");
        reveal_strlit("BR");
        reveal_strlit("BN");
        reveal_strlit("BF");
        reveal_strlit("BI");
        reveal_strlit("BT");
        reveal_strlit("VU");
        reveal_strlit("GB");
        reveal_strlit("HU");
        reveal_strlit("VE");
        reveal_strlit("TL");
        reveal_strlit("VN");
        reveal_strlit("GA");
        reveal_strlit("HT");
        reveal_strlit("GY");
        reveal_strlit("GM");
        reveal_strlit("GH");
        reveal_strlit("GT");
        reveal_strlit("GN");
        reveal_strlit("GW");
        reveal_strlit("DE");
        reveal_strlit("HN");
        reveal_strlit("GD");
        reveal_strlit("GR");
        reveal_strlit("GE");
        reveal_strlit("DK");
        reveal_strlit("DJ");
        reveal_strlit("DM");
    }
    v
}

/// One block of the fixed country list.
fn country_seed_part2() -> (r: Vec<(String, String)>)
    ensures
        r@.len() == 50,
        forall|i: int| 0 <= i < r@.len() ==> (#[trigger] r@[i]).1@.len() == 2,
{
    let mut v: Vec<(String, String)> = Vec::new();
    v.push((String::from_str("Доминиканская Республика"), String::from_str("DO")));
    v.push((String::from_str("Египет"), String::from_str("EG")));
    v.push((String::from_str("Замбия"), String::from_str("ZM")));
    v.push((String::from_str("Зимбабве"), String::from_str("ZW")));
    v.push((String::from_str("Израиль"), String::from_str("IL")));
    v.push((String::from_str("Индия"), String::from_str("IN")));
    v.push((String::from_str("Индонезия"), String::from_str("ID")));
    v.push((String::from_str("Иордания"), String::from_str("JO")));
    v.push((String::from_str("Ирак"), String::from_str("IQ")));
    v.push((String::from_str("Иран"), String::from_str("IR")));
    v.push((String::from_str("Ирландия"), String::from_str("IE")));
    v.push((String::from_str("Исландия"), String::from_str("IS")));
    v.push((String::from_str("Испания"), String::from_str("ES")));
    v.push((String::from_str("Италия"), String::from_str("IT")));
    v.push((String::from_str("Йемен"), String::from_str("YE")));
    v.push((String::from_str("Кабо-Верде"), String::from_str("CV")));
    v.push((String::from_str("Казахстан"), String::from_str("KZ")));
    v.push((String::from_str("Камбоджа"), String::from_str("KH")));
    v.push((String::from_str("Камерун"), String::from_str("CM")));
    v.push((String::from_str("Канада"), String::from_str("CA")));
    v.push((String::from_str("Катар"), String::from_str("QA")));
    v.push((String::from_str("Кения"), String::from_str("KE")));
    v.push((String::from_str("Кипр"), String::from_str("CY")));
    v.push((String::from_str("Киргизия"), String::from_str("KG")));
    v.push((String::from_str("Кирибати"), String::from_str("KI")));
    v.push((String::from_str("Китай"), String::from_str("CN")));
    v.push((String::from_str("Колумбия"), String::from_str("CO")));
    v.push((String::from_str("Коморы"), String::from_str("KM")));
    v.push((String::from_str("Конго"), String::from_str("CG")));
    v.push((String::from_str("ДР Конго"), String::from_str("CD")));
    v.push((String::from_str("Коста-Рика"), String::from_str("CR")));
    v.push((String::from_str("Кот-д'Ивуар"), String::from_str("CI")));
    v.push((String::from_str("Куба"), String::from_str("CU")));
    v.push((String::from_str("Кувейт"), String::from_str("KW")));
    v.push((String::from_str("Лаос"), String::from_str("LA")));
    v.push((String::from_str("Латвия"), String::from_str("LV")));
    v.push((String::from_str("Лесото"), String::from_str("LS")));
    v.push((String::from_str("Либерия"), String::from_str("LR")));
    v.push((String::from_str("Ливан"), String::from_str("LB")));
    v.push((String::from_str("Ливия"), String::from_str("LY")));
    v.push((String::from_str("Литва"), String::from_str("LT")));
    v.push((String::from_str("Лихтенштейн"), String::from_str("LI")));
    v.push((String::from_str("Люксембург"), String::from_str("LU")));
    v.push((String::from_str("Маврикий"), String::from_str("MU")));
    v.push((String::from_str("Мавритания"), String::from_str("MR")));
    v.push((String::from_str("Мадагаскар"), String::from_str("MG")));
    v.push((String::from_str("Малави"), String::from_str("MW")));
    v.push((String::from_str("Малайзия"), String::from_str("MY")));
    v.push((String::from_str("Мали"), String::from_str("ML")));
    v.push((String::from_str("Мальдивы"), String::from_str("MV")));
    proof {
        reveal_strlit("DO");
        reveal_strlit("EG");
        reveal_strlit("ZM");
        reveal_strlit("ZW");
        reveal_strlit("IL");
        reveal_strlit("IN");
        reveal_strlit("ID");
        reveal_strlit("JO");
        reveal_strlit("IQ");
        reveal_strlit("IR");
        reveal_strlit("IE");
        reveal_strlit("IS");
        reveal_strlit("ES");
        reveal_strlit("IT");
        reveal_strlit("YE");
        reveal_strlit("CV");
        reveal_strlit("KZ");
        reveal_strlit("KH");
        reveal_strlit("CM");
        reveal_strlit("CA");
        reveal_strlit("QA");
        reveal_strlit("KE");
        reveal_strlit("CY");
        reveal_strlit("KG");
        reveal_strlit("KI");
        reveal_strlit("CN");
        reveal_strlit("CO");
        reveal_strlit("KM");
        reveal_strlit("CG");
        reveal_strlit("CD");
        reveal_strlit("CR");
        reveal_strlit("CI");
        reveal_strlit("CU");
        reveal_strlit("KW");
        reveal_strlit("LA");
        reveal_strlit("LV");
        reveal_strlit("LS");
        reveal_strlit("LR");
        reveal_strlit("LB");
        reveal_strlit("LY");
        reveal_strlit("LT");
        reveal_strlit("LI");
        reveal_strlit("LU");
        reveal_strlit("MU");
        reveal_strlit("MR");
        reveal_strlit("MG");
        reveal_strlit("MW");
        reveal_strlit("MY");
        reveal_strlit("ML");
        reveal_strlit("MV");
    }
    v
}

/// One block of the fixed country list.
fn country_seed_part3() -> (r: Vec<(String, String)>)
    ensures
        r@.len() == 50,
        forall|i: int| 0 <= i < r@.len() ==> (#[trigger] r@[i]).1@.len() == 2,
        exists|i: int|
            0 <= i < r@.len() && (#[trigger] r@[i]).0@ == "Сербия"@ && r@[i].1@ == "RS"@,
{
    let mut v: Vec<(String, String)> = Vec::new();
    v.push((String::from_str("Мальта"), String::from_str("MT")));
    v.push((String::from_str("Марокко"), String::from_str("MA")));
    v.push((String::from_str("Маршалловы Острова"), String::from_str("MH")));
    v.push((String::from_str("Мексика"), String::from_str("MX")));
    v.push((String::from_str("Мозамбик"), String::from_str("MZ")));
    v.push((String::from_str("Молдова"), String::from_str("MD")));
    v.push((String::from_str("Монако"), String::from_str("MC")));
    v.push((String::from_str("Монголия"), String::from_str("MN")));
    v.push((String::from_str("Мьянма"), String::from_str("MM")));
    v.push((String::from_str("Намибия"), String::from_str("NA")));
    v.push((String::from_str("Науру"), String::from_str("NR")));
    v.push((String::from_str("Непал"), String::from_str("NP")));
    v.push((String::from_str("Нигер"), String::from_str("NE")));
    v.push((String::from_str("Нигерия"), String::from_str("NG")));
    v.push((String::from_str("Нидерланды"), String::from_str("NL")));
    v.push((String::from_str("Никарагуа"), String::from_str("NI")));
    v.push((String::from_str("Новая Зеландия"), String::from_str("NZ")));
    v.push((String::from_str("Норвегия"), String::from_str("NO")));
    v.push((String::from_str("ОАЭ"), String::from_str("AE")));
    v.push((String::from_str("Оман"), String::from_str("OM")));
    v.push((String::from_str("Пакистан"), String::from_str("PK")));
    v.push((String::from_str("Палау"), String::from_str("PW")));
    v.push((String::from_str("Панама"), String::from_str("PA")));
    v.push((String::from_str("Папуа — Новая Гвинея"), String::from_str("PG")));
    v.push((String::from_str("Парагвай"), String::from_str("PY")));
    v.push((String::from_str("Перу"), String::from_str("PE")));
    v.push((String::from_str("Польша"), String::from_str("PL")));
    v.push((String::from_str("Португалия"), String::from_str("PT")));
    v.push((String::from_str("Россия"), String::from_str("RU")));
    v.push((String::from_str("Руанда"), String::from_str("RW")));
    v.push((String::from_str("Румыния"), String::from_str("RO")));
    v.push((String::from_str("Сальвадор"), String::from_str("SV")));
    v.push((String::from_str("Самоа"), String::from_str("WS")));
    v.push((String::from_str("Сан-Марино"), String::from_str("SM")));
    v.push((String::from_str("Сан-Томе и Принсипи"), String::from_str("ST")));
    v.push((String::from_str("Саудовская Аравия"), String::from_str("SA")));
    v.push((String::from_str("Северная Корея"), String::from_str("KP")));
    v.push((String::from_str("Северная Македония"), String::from_str("MK")));
    v.push((String::from_str("Сейшелы"), String::from_str("SC")));
    v.push((String::from_str("Сенегал"), String::from_str("SN")));
    v.push((String::from_str("Сент-Винсент и Гренадины"), String::from_str("VC")));
    v.push((String::from_str("Сент-Китс и Невис"), String::from_str("KN")));
    v.push((String::from_str("Сент-Люсия"), String::from_str("LC")));
    v.push((String::from_str("Сербия"), String::from_str("RS")));
    v.push((String::from_str("Сингапур"), String::from_str("SG")));
    v.push((String::from_str("Сирия"), String::from_str("SY")));
    v.push((String::from_str("Словакия"), String::from_str("SK")));
    v.push((String::from_str("Словения"), String::from_str("SI")));
    v.push((String::from_str("Соломоновы Острова"), String::from_str("SB")));
    v.push((String::from_str("Сомали"), String::from_str("SO")));
    proof {
        reveal_strlit("MT");
        reveal_strlit("MA");
        reveal_strlit("MH");
        reveal_strlit("MX");
        reveal_strlit("MZ");
        reveal_strlit("MD");
        reveal_strlit("MC");
        reveal_strlit("MN");
        reveal_strlit("MM");
        reveal_strlit("NA");
        reveal_strlit("NR");
        reveal_strlit("NP");
        reveal_strlit("NE");
        reveal_strlit("NG");
        reveal_strlit("NL");
        reveal_strlit("NI");
        reveal_strlit("NZ");
        reveal_strlit("NO");
        reveal_strlit("AE");
        reveal_strlit("OM");
        reveal_strlit("PK");
        reveal_strlit("PW");
        reveal_strlit("PA");
        reveal_strlit("PG");
        reveal_strlit("PY");
        reveal_strlit("PE");
        reveal_strlit("PL");
        reveal_strlit("PT");
        reveal_strlit("RU");
        reveal_strlit("RW");
        reveal_strlit("RO");
        reveal_strlit("SV");
        reveal_strlit("WS");
        reveal_strlit("SM");
        reveal_strlit("ST");
        reveal_strlit("SA");
        reveal_strlit("KP");
        reveal_strlit("MK");
        reveal_strlit("SC");
        reveal_strlit("SN");
        reveal_strlit("VC");
        reveal_strlit("KN");
        reveal_strlit("LC");
        reveal_strlit("RS");
        reveal_strlit("SG");
        reveal_strlit("SY");
        reveal_strlit("SK");
        reveal_strlit("SI");
        reveal_strlit("SB");
        reveal_strlit("SO");
        assert(v@[43].0@ == "Сербия"@ && v@[43].1@ == "RS"@);
    }
    v
}

/// One block of the fixed country list.
fn country_seed_part4() -> (r: Vec<(String, String)>)
    ensures
        r@.len() == 43,
        forall|i: int| 0 <= i < r@.len() ==> (#[trigger] r@[i]).1@.len() == 2,
{
    let mut v: Vec<(String, String)> = Vec::new();
    v.push((String::from_str("Судан"), String::from_str("SD")));
    v.push((String::from_str("Суринам"), String::from_str("SR")));
    v.push((String::from_str("США"), String::from_str("US")));
    v.push((String::from_str("Сьерра-Леоне"), String::from_str("SL")));
    v.push((String::from_str("Таджикистан"), String::from_str("TJ")));
    v.push((String::from_str("Таиланд"), String::from_str("TH")));
    v.push((String::from_str("Танзания"), String::from_str("TZ")));
    v.push((String::from_str("Того"), String::from_str("TG")));
    v.push((String::from_str("Тонга"), String::from_str("TO")));
    v.push((String::from_str("Тринидад и Тобаго"), String::from_str("TT")));
    v.push((String::from_str("Тувалу"), String::from_str("TV")));
    v.push((String::from_str("Тунис"), String::from_str("TN")));
    v.push((String::from_str("Туркменистан"), String::from_str("TM")));
    v.push((String::from_str("Турция"), String::from_str("TR")));
    v.push((String::from_str("Уганда"), String::from_str("UG")));
    v.push((String::from_str("Узбекистан"), String::from_str("UZ")));
    v.push((String::from_str("Украина"), String::from_str("UA")));
    v.push((String::from_str("Уругвай"), String::from_str("UY")));
    v.push((String::from_str("Федеративные Штаты Микронезии"), String::from_str("FM")));
    v.push((String::from_str("Фиджи"), String::from_str("FJ")));
    v.push((String::from_str("Филиппины"), String::from_str("PH")));
    v.push((String::from_str("Финляндия"), String::from_str("FI")));
    v.push((String::from_str("Франция"), String::from_str("FR")));
    v.push((String::from_str("Хорватия"), String::from_str("HR")));
    v.push((String::from_str("ЦАР"), String::from_str("CF")));
    v.push((String::from_str("Чад"), String::from_str("TD")));
    v.push((String::from_str("Черногория"), String::from_str("ME")));
    v.push((String::from_str("Чехия"), String::from_str("CZ")));
    v.push((String::from_str("Чили"), String::from_str("CL")));
    v.push((String::from_str("Швейцария"), String::from_str("CH")));
    v.push((String::from_str("Швеция"), String::from_str("SE")));
    v.push((String::from_str("Шри-Ланка"), String::from_str("LK")));
    v.push((String::from_str("Эквадор"), String::from_str("EC")));
    v.push((String::from_str("Экваториальная Гвинея"), String::from_str("GQ")));
    v.push((String::from_str("Эритрея"), String::from_str("ER")));
    v.push((String::from_str("Эсватини"), String::from_str("SZ")));
    v.push((String::from_str("Эстония"), String::from_str("EE")));
    v.push((String::from_str("Эфиопия"), String::from_str("ET")));
    v.push((String::from_str("ЮАР"), String::from_str("ZA")));
    v.push((String::from_str("Южная Корея"), String::from_str("KR")));
    v.push((String::from_str("Южный Судан"), String::from_str("SS")));
    v.push((String::from_str("Ямайка"), String::from_str("JM")));
    v.push((String::from_str("Япония"), String::from_str("JP")));
    proof {
        reveal_strlit("SD");
        reveal_strlit("SR");
        reveal_strlit("US");
        reveal_strlit("SL");
        reveal_strlit("TJ");
        reveal_strlit("TH");
        reveal_strlit("TZ");
        reveal_strlit("TG");
        reveal_strlit("TO");
        reveal_strlit("TT");
        reveal_strlit("TV");
        reveal_strlit("TN");
        reveal_strlit("TM");
        reveal_strlit("TR");
        reveal_strlit("UG");
        reveal_strlit("UZ");
        reveal_strlit("UA");
        reveal_strlit("UY");
        reveal_strlit("FM");
        reveal_strlit("FJ");
        reveal_strlit("PH");
        reveal_strlit("FI");
        reveal_strlit("FR");
        reveal_strlit("HR");
        reveal_strlit("CF");
        reveal_strlit("TD");
        reveal_strlit("ME");
        reveal_strlit("CZ");
        reveal_strlit("CL");
        reveal_strlit("CH");
        reveal_strlit("SE");
        reveal_strlit("LK");
        reveal_strlit("EC");
        reveal_strlit("GQ");
        reveal_strlit("ER");
        reveal_strlit("SZ");
        reveal_strlit("EE");
        reveal_strlit("ET");
        reveal_strlit("ZA");
        reveal_strlit("KR");
        reveal_strlit("SS");
        reveal_strlit("JM");
        reveal_strlit("JP");
    }
    v
}

/// The full fixed country list: 193 entries, every code two characters,
/// with the pair (Сербия, RS) among them.
fn country_seed() -> (r: Vec<(String, String)>)
    ensures
        r@.len() == 193,
        forall|i: int| 0 <= i < r@.len() ==> (#[trigger] r@[i]).1@.len() == 2,
        exists|i: int|
            0 <= i < r@.len() && (#[trigger] r@[i]).0@ == "Сербия"@ && r@[i].1@ == "RS"@,
{
    let mut v = country_seed_part1();
    let mut p = country_seed_part2();
    v.append(&mut p);
    let mut p = country_seed_part3();
    let ghost p3 = p@;
    let ghost off = v@.len() as int;
    v.append(&mut p);
    proof {
        let i = choose|i: int| 0 <= i < p3.len() && p3[i].0@ == "Сербия"@ && p3[i].1@ == "RS"@;
        assert(v@[off + i] == p3[i]);
    }
    let mut p = country_seed_part4();
    let ghost pre = v@;
    v.append(&mut p);
    proof {
        let i = choose|i: int| 0 <= i < pre.len() && pre[i].0@ == "Сербия"@ && pre[i].1@ == "RS"@;
        assert(v@[i] == pre[i]);
    }
    v
}

impl Store {
    /// Seeds the administrator account when the user table is empty.
    pub fn seed_default_user(&mut self) -> (r: Result<(), CmdError>)
        requires
            old(self).wf(),
        ensures
            final(self).wf(),
            final(self).clients == old(self).clients,
            final(self).next_client_id == old(self).next_client_id,
            final(self).products == old(self).products,
            final(self).categories == old(self).categories,
            final(self).subcategories == old(self).subcategories,
            final(self).invoices == old(self).invoices,
            final(self).invoice_items == old(self).invoice_items,
            final(self).deliveries == old(self).deliveries,
            final(self).delivery_items == old(self).delivery_items,
            final(self).warehouse_groups == old(self).warehouse_groups,
            final(self).warehouse_items == old(self).warehouse_items,
            final(self).suppliers == old(self).suppliers,
            final(self).next_supplier_id == old(self).next_supplier_id,
            final(self).supplier_sectors == old(self).supplier_sectors,
            final(self).supplier_products == old(self).supplier_products,
            final(self).countries == old(self).countries,
            old(self).users@.len() > 0 ==> r is Ok && final(self).users == old(self).users,
            r is Err ==> final(self).users == old(self).users,
            r is Ok && old(self).users@.len() == 0 ==> {
                &&& final(self).users@.len() == 1
                &&& final(self).users@[0].username@ == "BrankoFND"@
                &&& final(self).users@[0].role@ == "admin"@
                &&& bcrypt_matches("MoskvaSlezamNeVeryt2024"@, final(self).users@[0].password@)
                &&& final(self).users@[0].password@.len() == 60
                &&& final(self).users@[0].password@ != "MoskvaSlezamNeVeryt2024"@
            },
    {
        if self.users.len() > 0 {
            return Ok(());
        }
        proof {
            reveal_strlit("MoskvaSlezamNeVeryt2024");
        }
        let hash = match hash_password("MoskvaSlezamNeVeryt2024") {
            Ok(h) => h,
            Err(m) => {
                return Err(CmdError::SchemaError(m));
            },
        };
        let id = fresh_id();
        let created_at = now_rfc3339();
        match self.create_user_row(
            id,
            String::from_str("BrankoFND"),
            hash,
            String::from_str("admin"),
            created_at,
        ) {
            Ok(u) => Ok(()),
            Err(e) => Err(e),
        }
    }

    /// Seeds the five default categories when the category table is empty.
    pub fn seed_default_categories(&mut self) -> (r: Result<(), CmdError>)
        requires
            old(self).wf(),
        ensures
            final(self).wf(),
            final(self).users == old(self).users,
            final(self).clients == old(self).clients,
            final(self).next_client_id == old(self).next_client_id,
            final(self).products == old(self).products,
            final(self).subcategories == old(self).subcategories,
            final(self).invoices == old(self).invoices,
            final(self).invoice_items == old(self).invoice_items,
            final(self).deliveries == old(self).deliveries,
            final(self).delivery_items == old(self).delivery_items,
            final(self).warehouse_groups == old(self).warehouse_groups,
            final(self).warehouse_items == old(self).warehouse_items,
            final(self).suppliers == old(self).suppliers,
            final(self).next_supplier_id == old(self).next_supplier_id,
            final(self).supplier_sectors == old(self).supplier_sectors,
            final(self).supplier_products == old(self).supplier_products,
            final(self).countries == old(self).countries,
            old(self).categories@.len() > 0 ==> r is Ok && final(self).categories == old(self).categories,
            r is Ok && old(self).categories@.len() == 0 ==> {
                &&& final(self).categories@.len() == 5
                &&& has_category_name(final(self).categories@, "Zeleni Čaj"@)
                &&& has_category_name(final(self).categories@, "Crni Čaj"@)
                &&& has_category_name(final(self).categories@, "Printing"@)
                &&& has_category_name(final(self).categories@, "Посуда"@)
                &&& has_category_name(final(self).categories@, "Other"@)
            },
    {
        if self.categories.len() > 0 {
            return Ok(());
        }
        let created_at = now_rfc3339();
        let ghost s0 = self.categories@;
        let c1 = match self.create_category_row(
            fresh_id(),
            String::from_str("Zeleni Čaj"),
            created_at.clone(),
        ) {
            Ok(row) => row,
            Err(e) => {
                return Err(e);
            },
        };
        proof {
            let pos = first_not(s0, cat_name_le("Zeleni Čaj"@));
            assert(self.categories@[pos] == c1);
            assert(has_category_name(self.categories@, "Zeleni Čaj"@));
        }
        let ghost s1 = self.categories@;
        let c2 = match self.create_category_row(
            fresh_id(),
            String::from_str("Crni Čaj"),
            created_at.clone(),
        ) {
            Ok(row) => row,
            Err(e) => {
                return Err(e);
            },
        };
        proof {
            let pos = first_not(s1, cat_name_le("Crni Čaj"@));
            assert(self.categories@[pos] == c2);
            assert(has_category_name(self.categories@, "Crni Čaj"@));
            lemma_insert_keeps_exists(s1, c2, pos, cat_name_is("Zeleni Čaj"@));
        }
        let ghost s2 = self.categories@;
        let c3 = match self.create_category_row(
            fresh_id(),
            String::from_str("Printing"),
            created_at.clone(),
        ) {
            Ok(row) => row,
            Err(e) => {
                return Err(e);
            },
        };
        proof {
            let pos = first_not(s2, cat_name_le("Printing"@));
            assert(self.categories@[pos] == c3);
            assert(has_category_name(self.categories@, "Printing"@));
            lemma_insert_keeps_exists(s2, c3, pos, cat_name_is("Zeleni Čaj"@));
            lemma_insert_keeps_exists(s2, c3, pos, cat_name_is("Crni Čaj"@));
        }
        let ghost s3 = self.categories@;
        let c4 = match self.create_category_row(
            fresh_id(),
            String::from_str("Посуда"),
            created_at.clone(),
        ) {
            Ok(row) => row,
            Err(e) => {
                return Err(e);
            },
        };
        proof {
            let pos = first_not(s3, cat_name_le("Посуда"@));
            assert(self.categories@[pos] == c4);
            assert(has_category_name(self.categories@, "Посуда"@));
            lemma_insert_keeps_exists(s3, c4, pos, cat_name_is("Zeleni Čaj"@));
            lemma_insert_keeps_exists(s3, c4, pos, cat_name_is("Crni Čaj"@));
            lemma_insert_keeps_exists(s3, c4, pos, cat_name_is("Printing"@));
        }
        let ghost s4 = self.categories@;
        let c5 = match self.create_category_row(fresh_id(), String::from_str("Other"), created_at) {
            Ok(row) => row,
            Err(e) => {
                return Err(e);
            },
        };
        proof {
            let pos = first_not(s4, cat_name_le("Other"@));
            assert(self.categories@[pos] == c5);
            assert(has_category_name(self.categories@, "Other"@));
            lemma_insert_keeps_exists(s4, c5, pos, cat_name_is("Zeleni Čaj"@));
            lemma_insert_keeps_exists(s4, c5, pos, cat_name_is("Crni Čaj"@));
            lemma_insert_keeps_exists(s4, c5, pos, cat_name_is("Printing"@));
            lemma_insert_keeps_exists(s4, c5, pos, cat_name_is("Посуда"@));
        }
        Ok(())
    }

    /// Seeds the five default supplier sectors when the sector table is
    /// empty.
    pub fn seed_default_supplier_sectors(&mut self) -> (r: Result<(), CmdError>)
        requires
            old(self).wf(),
        ensures
            final(self).wf(),
            final(self).users == old(self).users,
            final(self).clients == old(self).clients,
            final(self).next_client_id == old(self).next_client_id,
            final(self).products == old(self).products,
            final(self).categories == old(self).categories,
            final(self).subcategories == old(self).subcategories,
            final(self).invoices == old(self).invoices,
            final(self).invoice_items == old(self).invoice_items,
            final(self).deliveries == old(self).deliveries,
            final(self).delivery_items == old(self).delivery_items,
            final(self).warehouse_groups == old(self).warehouse_groups,
            final(self).warehouse_items == old(self).warehouse_items,
            final(self).suppliers == old(self).suppliers,
            final(self).next_supplier_id == old(self).next_supplier_id,
            final(self).supplier_products == old(self).supplier_products,
            final(self).countries == old(self).countries,
            old(self).supplier_sectors@.len() > 0 ==> r is Ok && final(self).supplier_sectors
                == old(self).supplier_sectors,
            r is Ok && old(self).supplier_sectors@.len() == 0 ==> {
                &&& final(self).supplier_sectors@.len() == 5
                &&& has_sector_name(final(self).supplier_sectors@, "Чай"@)
                &&& has_sector_name(final(self).supplier_sectors@, "Упаковка"@)
                &&& has_sector_name(final(self).supplier_sectors@, "Полиграфия"@)
                &&& has_sector_name(final(self).supplier_sectors@, "Логистика"@)
                &&& has_sector_name(final(self).supplier_sectors@, "Прочее"@)
            },
    {
        if self.supplier_sectors.len() > 0 {
            return Ok(());
        }
        let created_at = now_rfc3339();
        let ghost s0 = self.supplier_sectors@;
        let x1 = match self.create_supplier_sector_row(
            fresh_id(),
            String::from_str("Чай"),
            created_at.clone(),
        ) {
            Ok(row) => row,
            Err(e) => {
                return Err(e);
            },
        };
        proof {
            let pos = first_not(s0, sector_name_le("Чай"@));
            assert(self.supplier_sectors@[pos] == x1);
            assert(has_sector_name(self.supplier_sectors@, "Чай"@));
        }
        let ghost s1 = self.supplier_sectors@;
        let x2 = match self.create_supplier_sector_row(
            fresh_id(),
            String::from_str("Упаковка"),
            created_at.clone(),
        ) {
            Ok(row) => row,
            Err(e) => {
                return Err(e);
            },
        };
        proof {
            let pos = first_not(s1, sector_name_le("Упаковка"@));
            assert(self.supplier_sectors@[pos] == x2);
            assert(has_sector_name(self.supplier_sectors@, "Упаковка"@));
            lemma_insert_keeps_exists(s1, x2, pos, sector_name_is("Чай"@));
        }
        let ghost s2 = self.supplier_sectors@;
        let x3 = match self.create_supplier_sector_row(
            fresh_id(),
            String::from_str("Полиграфия"),
            created_at.clone(),
        ) {
            Ok(row) => row,
            Err(e) => {
                return Err(e);
            },
        };
        proof {
            let pos = first_not(s2, sector_name_le("Полиграфия"@));
            assert(self.supplier_sectors@[pos] == x3);
            assert(has_sector_name(self.supplier_sectors@, "Полиграфия"@));
            lemma_insert_keeps_exists(s2, x3, pos, sector_name_is("Чай"@));
            lemma_insert_keeps_exists(s2, x3, pos, sector_name_is("Упаковка"@));
        }
        let ghost s3 = self.supplier_sectors@;
        let x4 = match self.create_supplier_sector_row(
            fresh_id(),
            String::from_str("Логистика"),
            created_at.clone(),
        ) {
            Ok(row) => row,
            Err(e) => {
                return Err(e);
            },
        };
        proof {
            let pos = first_not(s3, sector_name_le("Логистика"@));
            assert(self.supplier_sectors@[pos] == x4);
            assert(has_sector_name(self.supplier_sectors@, "Логистика"@));
            lemma_insert_keeps_exists(s3, x4, pos, sector_name_is("Чай"@));
            lemma_insert_keeps_exists(s3, x4, pos, sector_name_is("Упаковка"@));
            lemma_insert_keeps_exists(s3, x4, pos, sector_name_is("Полиграфия"@));
        }
        let ghost s4 = self.supplier_sectors@;
        let x5 = match self.create_supplier_sector_row(
            fresh_id(),
            String::from_str("Прочее"),
            created_at,
        ) {
            Ok(row) => row,
            Err(e) => {
                return Err(e);
            },
        };
        proof {
            let pos = first_not(s4, sector_name_le("Прочее"@));
            assert(self.supplier_sectors@[pos] == x5);
            assert(has_sector_name(self.supplier_sectors@, "Прочее"@));
            lemma_insert_keeps_exists(s4, x5, pos, sector_name_is("Чай"@));
            lemma_insert_keeps_exists(s4, x5, pos, sector_name_is("Упаковка"@));
            lemma_insert_keeps_exists(s4, x5, pos, sector_name_is("Полиграфия"@));
            lemma_insert_keeps_exists(s4, x5, pos, sector_name_is("Логистика"@));
        }
        Ok(())
    }

    /// Seeds the country reference list when the country table is empty.
    #[verifier::loop_isolation(false)]
    pub fn seed_countries(&mut self) -> (r: Result<(), CmdError>)
        requires
            old(self).wf(),
        ensures
            final(self).wf(),
            final(self).users == old(self).users,
            final(self).clients == old(self).clients,
            final(self).next_client_id == old(self).next_client_id,
            final(self).products == old(self).products,
            final(self).categories == old(self).categories,
            final(self).subcategories == old(self).subcategories,
            final(self).invoices == old(self).invoices,
            final(self).invoice_items == old(self).invoice_items,
            final(self).deliveries == old(self).deliveries,
            final(self).delivery_items == old(self).delivery_items,
            final(self).warehouse_groups == old(self).warehouse_groups,
            final(self).warehouse_items == old(self).warehouse_items,
            final(self).suppliers == old(self).suppliers,
            final(self).next_supplier_id == old(self).next_supplier_id,
            final(self).supplier_sectors == old(self).supplier_sectors,
            final(self).supplier_products == old(self).supplier_products,
            old(self).countries@.len() > 0 ==> r is Ok && final(self).countries == old(self).countries,
            r is Ok && old(self).countries@.len() == 0 ==> {
                &&& final(self).countries@.len() == 193
                &&& has_country_pair(final(self).countries@, "Сербия"@, "RS"@)
                &&& country_codes_two(final(self).countries@)
            },
    {
        if self.countries.len() > 0 {
            return Ok(());
        }
        let created_at = now_rfc3339();
        let list = country_seed();
        let n = list.len();
        let mut i: usize = 0;
        while i < n
            invariant
                i <= n,
                self.wf(),
                self.countries@.len() == i,
                country_codes_two(self.countries@),
                forall|k: int|
                    0 <= k < i ==> has_country_pair(
                        self.countries@,
                        (#[trigger] list@[k]).0@,
                        list@[k].1@,
                    ),
                self.users == old(self).users,
                self.clients == old(self).clients,
                self.next_client_id == old(self).next_client_id,
                self.products == old(self).products,
                self.categories == old(self).categories,
                self.subcategories == old(self).subcategories,
                self.invoices == old(self).invoices,
                self.invoice_items == old(self).invoice_items,
                self.deliveries == old(self).deliveries,
                self.delivery_items == old(self).delivery_items,
                self.warehouse_groups == old(self).warehouse_groups,
                self.warehouse_items == old(self).warehouse_items,
                self.suppliers == old(self).suppliers,
                self.next_supplier_id == old(self).next_supplier_id,
                self.supplier_sectors == old(self).supplier_sectors,
                self.supplier_products == old(self).supplier_products,
            decreases n - i,
        {
            let ghost pre = self.countries@;
            let name = list[i].0.clone();
            let code = list[i].1.clone();
            let ghost gname = name@;
            let ghost gcode = code@;
            match self.create_country_row(fresh_id(), name, code, created_at.clone()) {
                Ok(u) => {},
                Err(e) => {
                    return Err(e);
                },
            }
            proof {
                let t = self.countries@;
                let pos = first_not(pre, country_name_le(gname));
                assert(t[pos].name@ == gname && t[pos].code is Some && t[pos].code->0@ == gcode);
                assert(country_pair_is(list@[i as int].0@, list@[i as int].1@)(t[pos]));
                assert forall|m: int| 0 <= m < t.len() implies (#[trigger] t[m]).code is Some
                    && t[m].code->0@.len() == 2 by {
                    if m < pos {
                        assert(t[m] == pre[m]);
                        assert(pre[m].code is Some && pre[m].code->0@.len() == 2);
                    } else if m > pos {
                        assert(t[m] == pre[m - 1]);
                        assert(pre[m - 1].code is Some && pre[m - 1].code->0@.len() == 2);
                    } else {
                        assert(gcode.len() == 2);
                    }
                }
                assert forall|k: int| 0 <= k < i + 1 implies has_country_pair(
                    t,
                    (#[trigger] list@[k]).0@,
                    list@[k].1@,
                ) by {
                    if k < i {
                        assert(has_country_pair(pre, list@[k].0@, list@[k].1@));
                        let j = choose|j: int|
                            0 <= j < pre.len() && country_pair_is(list@[k].0@, list@[k].1@)(
                                pre[j],
                            );
                        if j < pos {
                            assert(t[j] == pre[j]);
                        } else {
                            assert(t[j + 1] == pre[j]);
                        }
                    }
                }
            }
            i = i + 1;
        }
        proof {
            let k = choose|k: int|
                0 <= k < list@.len() && (#[trigger] list@[k]).0@ == "Сербия"@ && list@[k].1@
                    == "RS"@;
            assert(has_country_pair(self.countries@, list@[k].0@, list@[k].1@));
        }
        Ok(())
    }

    /// The bootstrap: seeds every reference table that is empty, in the
    /// fixed order categories, sectors, countries, administrator.
    pub fn init(&mut self) -> (r: Result<(), CmdError>)
        requires
            old(self).wf(),
        ensures
            final(self).wf(),
            final(self).clients == old(self).clients,
            final(self).next_client_id == old(self).next_client_id,
            final(self).products == old(self).products,
            final(self).subcategories == old(self).subcategories,
            final(self).invoices == old(self).invoices,
            final(self).invoice_items == old(self).invoice_items,
            final(self).deliveries == old(self).deliveries,
            final(self).delivery_items == old(self).delivery_items,
            final(self).warehouse_groups == old(self).warehouse_groups,
            final(self).warehouse_items == old(self).warehouse_items,
            final(self).suppliers == old(self).suppliers,
            final(self).next_supplier_id == old(self).next_supplier_id,
            final(self).supplier_products == old(self).supplier_products,
            old(self).users@.len() > 0 ==> final(self).users == old(self).users,
            old(self).categories@.len() > 0 ==> final(self).categories == old(self).categories,
            old(self).supplier_sectors@.len() > 0 ==> final(self).supplier_sectors == old(self).supplier_sectors,
            old(self).countries@.len() > 0 ==> final(self).countries == old(self).countries,
            old(self).users@.len() > 0 && old(self).categories@.len() > 0 && old(
                self,
            ).supplier_sectors@.len() > 0 && old(self).countries@.len() > 0 ==> r is Ok,
            r is Ok && old(self).users@.len() == 0 ==> {
                &&& final(self).users@.len() == 1
                &&& final(self).users@[0].username@ == "BrankoFND"@
                &&& final(self).users@[0].role@ == "admin"@
                &&& bcrypt_matches("MoskvaSlezamNeVeryt2024"@, final(self).users@[0].password@)
                &&& final(self).users@[0].password@.len() == 60
                &&& final(self).users@[0].password@ != "MoskvaSlezamNeVeryt2024"@
            },
            r is Ok && old(self).categories@.len() == 0 ==> {
                &&& final(self).categories@.len() == 5
                &&& has_category_name(final(self).categories@, "Zeleni Čaj"@)
                &&& has_category_name(final(self).categories@, "Crni Čaj"@)
                &&& has_category_name(final(self).categories@, "Printing"@)
                &&& has_category_name(final(self).categories@, "Посуда"@)
                &&& has_category_name(final(self).categories@, "Other"@)
            },
            r is Ok && old(self).supplier_sectors@.len() == 0 ==> {
                &&& final(self).supplier_sectors@.len() == 5
                &&& has_sector_name(final(self).supplier_sectors@, "Чай"@)
                &&& has_sector_name(final(self).supplier_sectors@, "Упаковка"@)
                &&& has_sector_name(final(self).supplier_sectors@, "Полиграфия"@)
                &&& has_sector_name(final(self).supplier_sectors@, "Логистика"@)
                &&& has_sector_name(final(self).supplier_sectors@, "Прочее"@)
            },
            r is Ok && old(self).countries@.len() == 0 ==> {
                &&& final(self).countries@.len() == 193
                &&& has_country_pair(final(self).countries@, "Сербия"@, "RS"@)
                &&& country_codes_two(final(self).countries@)
            },
    {
        match self.seed_default_categories() {
            Ok(u) => {},
            Err(e) => {
                return Err(e);
            },
        }
        match self.seed_default_supplier_sectors() {
            Ok(u) => {},
            Err(e) => {
                return Err(e);
            },
        }
        match self.seed_countries() {
            Ok(u) => {},
            Err(e) => {
                return Err(e);
            },
        }
        match self.seed_default_user() {
            Ok(u) => {},
            Err(e) => {
                return Err(e);
            },
        }
        Ok(())
    }
}

} // verus!
