use fiyat_arama::json::{json_agaci, kabuktan_agac, Json, JsonKabuk, JSON_DERINLIK};
use fiyat_arama::jsonld::{
    detect_article_from_jsonld, detect_product_from_jsonld, extract_offer_fields,
    json_ld_has_type,
};

fn yaz(j: &Json) -> String {
    match j {
        Json::Bos => "null".to_string(),
        Json::Mantiksal(b) => b.to_string(),
        Json::Sayi(n) => format!("#{n}"),
        Json::Metin(s) => format!("{s:?}"),
        Json::Dizi(v) => format!("[{}]", v.iter().map(yaz).collect::<Vec<_>>().join(",")),
        Json::Nesne(v) => format!(
            "{{{}}}",
            v.iter().map(|(k, x)| format!("{k:?}:{}", yaz(x))).collect::<Vec<_>>().join(",")
        ),
    }
}

fn agac(metin: &str) -> Json {
    json_agaci(metin, JSON_DERINLIK).expect("geçerli JSON")
}

#[test]
fn json_agaci_ic_ice() {
    let j = agac(r#"{"b": [1, "x", null, true, {"c": 1.50}], "a": "y"}"#);
    assert_eq!(yaz(&j), r#"{"a":"y","b":[#1,"x",null,true,{"c":#1.5}]}"#);
}

#[test]
fn json_agaci_hatali_metin() {
    assert!(json_agaci("{bad", JSON_DERINLIK).is_none());
    assert!(json_agaci("", JSON_DERINLIK).is_none());
    assert!(json_agaci("[1] x", JSON_DERINLIK).is_none());
}

#[test]
fn json_agaci_derinlik_siniri() {
    let j = json_agaci("[[[1]]]", 1).unwrap();
    assert_eq!(yaz(&j), "[[null]]");
    let j = json_agaci("[[[1]]]", 0).unwrap();
    assert_eq!(yaz(&j), "[null]");
    assert_eq!(yaz(&agac("[[[1]]]")), "[[[#1]]]");
}

#[test]
fn json_agaci_skaler() {
    assert_eq!(yaz(&agac("  \"metin\" ")), "\"metin\"");
    assert_eq!(yaz(&agac("-3")), "#-3");
    assert_eq!(yaz(&agac("false")), "false");
}

#[test]
fn tur_eslesmesi() {
    assert!(json_ld_has_type(&agac(r#"{"@type":"PRODUCT"}"#), "Product"));
    assert!(json_ld_has_type(&agac(r#"{"@type":["Thing", 3, "product"]}"#), "Product"));
    assert!(!json_ld_has_type(&agac(r#"{"@type":["Thing"]}"#), "Product"));
    assert!(!json_ld_has_type(&agac(r#"{"type":"Product"}"#), "Product"));
    assert!(!json_ld_has_type(&agac(r#"["Product"]"#), "Product"));
    assert!(!json_ld_has_type(&agac(r#"{"@type":{"name":"Product"}}"#), "Product"));
}

#[test]
fn teklif_alanlari() {
    let o = agac(r#"[{"price": 12.5, "priceCurrency": "TRY", "availability": "https://schema.org/InStock"}, {"price": "1"}]"#);
    let (p, c, a) = extract_offer_fields(Some(&o));
    assert_eq!(p.as_deref(), Some("12.5"));
    assert_eq!(c.as_deref(), Some("TRY"));
    assert_eq!(a.as_deref(), Some("InStock"));

    let o = agac(r#"{"price": "99,90", "priceCurrency": 5}"#);
    let (p, c, a) = extract_offer_fields(Some(&o));
    assert_eq!(p.as_deref(), Some("99,90"));
    assert_eq!(c, None);
    assert_eq!(a, None);

    let (p, c, a) = extract_offer_fields(None);
    assert!(p.is_none() && c.is_none() && a.is_none());

    let o = agac(r#"["fiyat"]"#);
    let (p, c, a) = extract_offer_fields(Some(&o));
    assert!(p.is_none() && c.is_none() && a.is_none());

    let o = agac(r#""12""#);
    let (p, _, _) = extract_offer_fields(Some(&o));
    assert!(p.is_none());
}

#[test]
fn urun_tespiti() {
    let items = vec![
        agac(r#"{"@type":"Article","headline":"h"}"#),
        agac(r#"{"@type":"Product","offers":{"price":10,"availability":"InStock"}}"#),
        agac(r#"{"@type":"Product","name":"ikinci"}"#),
    ];
    let p = detect_product_from_jsonld(&items).unwrap();
    assert_eq!(p.name, "(adı bulunamadı)");
    assert_eq!(p.price.as_deref(), Some("10"));
    assert_eq!(p.currency, None);
    assert_eq!(p.availability.as_deref(), Some("InStock"));
    assert!(detect_product_from_jsonld(&vec![agac("{}")]).is_none());
    assert!(detect_product_from_jsonld(&vec![]).is_none());
}

#[test]
fn makale_tespiti() {
    let items = vec![agac(
        r#"{"@type":["NewsArticle","Article"],"headline":"Başlık","author":[{"x":1},{"name":"Ayşe"},{"name":"Ali"}],"datePublished":"2024-01-01"}"#,
    )];
    let a = detect_article_from_jsonld(&items).unwrap();
    assert_eq!(a.headline.as_deref(), Some("Başlık"));
    assert_eq!(a.author.as_deref(), Some("Ayşe"));
    assert_eq!(a.date_published.as_deref(), Some("2024-01-01"));

    let a = detect_article_from_jsonld(&vec![agac(r#"{"@type":"article","author":"Veli"}"#)]).unwrap();
    assert_eq!(a.author.as_deref(), Some("Veli"));
    assert_eq!(a.headline, None);

    let a = detect_article_from_jsonld(&vec![agac(r#"{"@type":"Article","author":{"name":"Can"}}"#)]).unwrap();
    assert_eq!(a.author.as_deref(), Some("Can"));

    let a = detect_article_from_jsonld(&vec![agac(r#"{"@type":"Article","author":7}"#)]).unwrap();
    assert_eq!(a.author, None);

    assert!(detect_article_from_jsonld(&vec![agac(r#"{"@type":"Product"}"#)]).is_none());
}

#[test]
fn ic_ice_sayi_bir_kez_okunur() {
    let metin = r#"[{"@type":"Product","offers":{"price":3.74e30}}, {"x": [1e-7, 0.1, 123456789012345678901234567890]}]"#;
    let beklenen: serde_json::Value = serde_json::from_str(metin).unwrap();
    let j = agac(metin);
    let items = match &j {
        Json::Dizi(v) => v,
        _ => panic!("dizi bekleniyordu"),
    };
    let p = detect_product_from_jsonld(items).unwrap();
    assert_eq!(p.price.unwrap(), beklenen[0]["offers"]["price"].to_string());
    let sayilar: Vec<String> = beklenen[1]["x"].as_array().unwrap().iter().map(|n| n.to_string()).collect();
    match &items[1] {
        Json::Nesne(ps) => match &ps[0].1 {
            Json::Dizi(v) => {
                let bizim: Vec<String> = v.iter().map(|x| match x { Json::Sayi(n) => n.clone(), _ => panic!() }).collect();
                assert_eq!(bizim, sayilar);
            }
            _ => panic!("dizi bekleniyordu"),
        },
        _ => panic!("nesne bekleniyordu"),
    }
}

#[test]
fn kabuktan_agac_ogeleri_okur() {
    let k = JsonKabuk::Dizi(vec!["1".to_string(), " {\"a\": null} ".to_string(), "{bozuk".to_string()]);
    assert_eq!(yaz(&kabuktan_agac(k, 1)), r#"[#1,{"a":null},null]"#);
    let k = JsonKabuk::Nesne(vec![("k".to_string(), "[true]".to_string())]);
    assert_eq!(yaz(&kabuktan_agac(k, 0)), r#"{"k":null}"#);
    assert_eq!(yaz(&kabuktan_agac(JsonKabuk::Metin("m".to_string()), 0)), r#""m""#);
}
