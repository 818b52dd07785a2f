use fiyat_arama::metin::{
    ascii_harfsiz_esit, ayracla_birlestir, birlestir, bosluk, egikleri_kirp, ile_baslar,
    karakter_icerir, karakterler, kirp, metin_esit, shorten_schema_url,
};

#[test]
fn kirp_bosluklari_atar() {
    assert_eq!(kirp("  a b \t\n"), "a b");
    assert_eq!(kirp("\u{3000}x\u{a0}\u{2009}"), "x");
    assert_eq!(kirp(""), "");
    assert_eq!(kirp(" \r\n "), "");
    assert_eq!(kirp("içerik"), "içerik");
}

#[test]
fn kirp_iki_kez_ayni() {
    let bir = kirp("  \u{85}Başlık \u{2028}");
    assert_eq!(kirp(&bir), bir);
    assert_eq!(bir, "Başlık");
}

#[test]
fn bosluk_std_ile_ayni() {
    for c in ['\t', '\n', ' ', '\u{85}', '\u{a0}', '\u{1680}', '\u{2000}', '\u{200a}', '\u{3000}', 'a', '\u{200b}', '_'] {
        assert_eq!(bosluk(c), c.is_whitespace(), "{c:?}");
    }
}

#[test]
fn egikleri_kirp_iki_uctan() {
    assert_eq!(egikleri_kirp("/istanbul/"), "istanbul");
    assert_eq!(egikleri_kirp("//a/b//"), "a/b");
    assert_eq!(egikleri_kirp("///"), "");
}

#[test]
fn ascii_harf_farki_gozetilmez() {
    assert!(ascii_harfsiz_esit("PRODUCT", "product"));
    assert!(ascii_harfsiz_esit("Article", "aRTICLE"));
    assert!(!ascii_harfsiz_esit("Produkt", "product"));
    assert!(!ascii_harfsiz_esit("İ", "i"));
    assert!(!ascii_harfsiz_esit("product ", "product"));
}

#[test]
fn karsilastirmalar() {
    assert!(metin_esit("ağaç", "ağaç"));
    assert!(!metin_esit("ağaç", "agac"));
    assert!(ile_baslar("og:title", "og:"));
    assert!(!ile_baslar("o", "og:"));
    assert!(karakter_icerir("a/b", '/'));
    assert!(!karakter_icerir("ab", '/'));
    assert_eq!(karakterler("çü"), vec!['ç', 'ü']);
}

#[test]
fn birlestirme() {
    let v = vec!["a".to_string(), "bc".to_string(), "".to_string(), "d".to_string()];
    assert_eq!(birlestir(&v), "abcd");
    assert_eq!(ayracla_birlestir(&v, " "), "a bc  d");
    assert_eq!(ayracla_birlestir(&vec![], " "), "");
    assert_eq!(ayracla_birlestir(&vec!["tek".to_string()], ", "), "tek");
}

#[test]
fn schema_adresinin_son_parcasi() {
    assert_eq!(shorten_schema_url("https://schema.org/InStock"), "InStock");
    assert_eq!(shorten_schema_url("InStock"), "InStock");
    assert_eq!(shorten_schema_url("a/b/"), "");
    assert_eq!(shorten_schema_url(""), "");
    let s = shorten_schema_url("http://schema.org/OutOfStock");
    assert!(!s.contains('/'));
    assert!("http://schema.org/OutOfStock".ends_with(&s));
}
