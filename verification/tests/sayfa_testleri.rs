use fiyat_arama::benzin::{
    benzin_fiyat_url, benzin_fiyatlari, benzin_fiyatlarini_cikar, benzin_sehirleri,
    sehir_listesi_url, sehir_secenekleri, sehir_slug_bul, sehirleri_cikar, BenzinHatasi,
    SehirBilgi,
};
use fiyat_arama::html::Oge;
use fiyat_arama::inceleme::{url_dogrula, sayfayi_incele, IncelemeHatasi};
use fiyat_arama::sozluk::{once_mi, SiraliSozluk};

const SEHIR_SAYFASI: &str = r#"<html><body>
<a href="https://www.doviz.com/akaryakit-fiyatlari/istanbul"> İstanbul </a>
<a href="https://www.doviz.com/akaryakit-fiyatlari/ankara/">Ank<b>ara</b></a>
<a href="https://www.doviz.com/akaryakit-fiyatlari/istanbul">İstanbul (tekrar)</a>
<a href="https://www.doviz.com/akaryakit-fiyatlari/izmir/karsiyaka">Karşıyaka</a>
<a href="https://www.doviz.com/akaryakit-fiyatlari/">Boş</a>
<a href="https://www.doviz.com/doviz">Döviz</a>
<a href="https://www.doviz.com/akaryakit-fiyatlari/uzun">ÇÇÇÇÇÇÇÇÇÇÇÇÇÇÇÇÇÇÇÇÇÇÇÇÇÇÇÇÇÇ</a>
<a href="https://www.doviz.com/akaryakit-fiyatlari/uzun">Uzun</a>
<a href="https://www.doviz.com/akaryakit-fiyatlari/bos">   </a>
<a>href yok</a>
</body></html>"#;

#[test]
fn sehir_listesi_okunur() {
    let sehirler = benzin_sehirleri(SEHIR_SAYFASI);
    let ciftler: Vec<(&str, &str)> = sehirler.iter().map(|s| (s.ad.as_str(), s.slug.as_str())).collect();
    assert_eq!(ciftler, vec![("İstanbul", "istanbul"), ("Ankara", "ankara")]);
}

#[test]
fn sehirler_tekil_sluglu() {
    let sehirler = benzin_sehirleri(SEHIR_SAYFASI);
    for (i, a) in sehirler.iter().enumerate() {
        assert!(!a.slug.is_empty() && !a.slug.contains('/'));
        assert!(!a.ad.is_empty() && a.ad.len() < 60);
        for b in &sehirler[i + 1..] {
            assert_ne!(a.slug, b.slug);
        }
    }
}

#[test]
fn sehir_cikarma_ogelerden() {
    let oge = |href: Option<&str>, metin: &[&str]| Oge {
        nitelikler: vec![href.map(|h| h.to_string())],
        metin: metin.iter().map(|m| m.to_string()).collect(),
        ic_html: String::new(),
    };
    let ogeler = vec![
        oge(Some("https://www.doviz.com/akaryakit-fiyatlari//adana//"), &["  Ada", "na "]),
        oge(None, &["Yok"]),
        oge(Some("https://www.doviz.com/akaryakit-fiyatlari/adana"), &["Adana 2"]),
    ];
    let sehirler = sehirleri_cikar(&ogeler);
    assert_eq!(sehirler.len(), 1);
    assert_eq!(sehirler[0].ad, "Adana");
    assert_eq!(sehirler[0].slug, "adana");
}

#[test]
fn sehir_secimi() {
    let sehirler = vec![
        SehirBilgi { ad: "Ankara".to_string(), slug: "ankara".to_string() },
        SehirBilgi { ad: "İzmir".to_string(), slug: "izmir".to_string() },
        SehirBilgi { ad: "İzmir".to_string(), slug: "izmir-2".to_string() },
    ];
    assert_eq!(sehir_secenekleri(&sehirler).ok().unwrap(), vec!["Ankara", "İzmir", "İzmir"]);
    assert_eq!(sehir_slug_bul(&sehirler, "İzmir"), "izmir");
    assert_eq!(sehir_slug_bul(&sehirler, "Bursa"), "");
    assert!(matches!(sehir_secenekleri(&vec![]), Err(BenzinHatasi::SehirListesiBos)));
}

#[test]
fn fiyat_adresleri() {
    assert_eq!(sehir_listesi_url(), "https://www.doviz.com/akaryakit-fiyatlari");
    assert_eq!(benzin_fiyat_url("istanbul"), "https://www.doviz.com/akaryakit-fiyatlari/istanbul");
}

#[test]
fn fiyat_tablosu_okunur() {
    let html = r#"<table><thead><tr><td>Başlık</td><td>a</td><td>b</td><td>c</td></tr></thead>
<tbody>
<tr><td> Shell </td><td>45,10</td><td>46,<b>20</b></td><td>22,00</td><td>fazla</td></tr>
<tr><td>Eksik</td><td>1</td><td>2</td></tr>
<tr><td>Opet</td><td>45,00</td><td>46,00</td><td>21,90</td></tr>
</tbody></table>"#;
    let fiyatlar = benzin_fiyatlari(html);
    assert_eq!(fiyatlar.len(), 2);
    assert_eq!(
        (fiyatlar[0].dagitici.as_str(), fiyatlar[0].benzin.as_str(), fiyatlar[0].motorin.as_str(), fiyatlar[0].lpg.as_str()),
        ("Shell", "45,10", "46,20", "22,00")
    );
    assert_eq!(fiyatlar[1].dagitici, "Opet");
    assert!(benzin_fiyatlari("<p>tablo yok</p>").is_empty());
}

#[test]
fn fiyat_satirlari_hucrelerden() {
    let s = |v: &[&[&str]]| -> Vec<Vec<String>> {
        v.iter().map(|h| h.iter().map(|t| t.to_string()).collect()).collect()
    };
    let satirlar = vec![
        s(&[&[" A "], &["1", ",5"], &[], &["3"]]),
        s(&[&["B"]]),
    ];
    let f = benzin_fiyatlarini_cikar(&satirlar);
    assert_eq!(f.len(), 1);
    assert_eq!((f[0].dagitici.as_str(), f[0].benzin.as_str(), f[0].motorin.as_str(), f[0].lpg.as_str()), ("A", "1,5", "", "3"));
}

#[test]
fn url_dogrulama() {
    assert_eq!(url_dogrula("https://example.com").ok().unwrap(), "https://example.com/");
    assert_eq!(url_dogrula("HTTPS://Example.COM/a b").ok().unwrap(), "https://example.com/a%20b");
    match url_dogrula("example.com") {
        Err(IncelemeHatasi::GecersizUrl(e)) => assert_eq!(e, url::ParseError::RelativeUrlWithoutBase),
        Ok(_) => panic!("göreli adres kabul edildi"),
    }
}

const SAYFA: &str = r#"<html><head>
<title>  Örnek Ürün  </title>
<title>İkinci</title>
<meta name="DESCRIPTION" content=" İlk açıklama ">
<meta name="description" content="  ">
<meta name="Description" content="Son açıklama">
<meta property="og:title" content="Eski">
<meta property="og:image" content="resim.png">
<meta property="og:title" content="Yeni">
<meta property="twitter:card" content="summary">
<script type="application/ld+json">[{"@type":"Article","headline":"H"},{"@type":"Product","name":"Telefon","offers":[{"price":"100","priceCurrency":"TRY","availability":"http://schema.org/InStock"}]}]</script>
<script type="application/ld+json">{"@type":"Organization"}</script>
<script type="application/ld+json">{bozuk</script>
<script>{"@type":"Product"}</script>
</head><body></body></html>"#;

#[test]
fn sayfa_incelemesi() {
    let ins = sayfayi_incele("https://example.com/".to_string(), SAYFA);
    assert_eq!(ins.url, "https://example.com/");
    assert_eq!(ins.title.as_deref(), Some("Örnek Ürün"));
    assert_eq!(ins.description.as_deref(), Some("Son açıklama"));
    let og: Vec<(&str, &str)> = ins.open_graph.ogeler().iter().map(|(k, v)| (k.as_str(), v.as_str())).collect();
    assert_eq!(og, vec![("og:image", "resim.png"), ("og:title", "Yeni")]);
    assert_eq!(ins.json_ld_objects.len(), 3);
    let p = ins.detected_product.as_ref().unwrap();
    assert_eq!(p.name, "Telefon");
    assert_eq!(p.price.as_deref(), Some("100"));
    assert_eq!(p.currency.as_deref(), Some("TRY"));
    assert_eq!(p.availability.as_deref(), Some("InStock"));
    assert_eq!(ins.detected_article.as_ref().unwrap().headline.as_deref(), Some("H"));
}

#[test]
fn bos_sayfa_incelemesi() {
    let ins = sayfayi_incele("https://example.com/".to_string(), "<p>merhaba</p>");
    assert!(ins.title.is_none());
    assert!(ins.description.is_none());
    assert!(ins.open_graph.is_empty());
    assert!(ins.json_ld_objects.is_empty());
    assert!(ins.detected_product.is_none() && ins.detected_article.is_none());
}

#[test]
fn sirali_sozluk() {
    let mut s = SiraliSozluk::new();
    assert!(s.is_empty());
    s.insert("og:title".to_string(), "a".to_string());
    s.insert("og:image".to_string(), "b".to_string());
    s.insert("og:url".to_string(), "c".to_string());
    s.insert("og:title".to_string(), "d".to_string());
    s.insert("og:".to_string(), "e".to_string());
    s.insert("og:çizim".to_string(), "f".to_string());
    let v: Vec<(&str, &str)> = s.ogeler().iter().map(|(k, v)| (k.as_str(), v.as_str())).collect();
    assert_eq!(
        v,
        vec![("og:", "e"), ("og:image", "b"), ("og:title", "d"), ("og:url", "c"), ("og:çizim", "f")]
    );
    assert_eq!(s.len(), 5);
    let mut b = std::collections::BTreeMap::new();
    for (k, x) in [("og:title", "a"), ("og:image", "b"), ("og:url", "c"), ("og:title", "d"), ("og:", "e"), ("og:çizim", "f")] {
        b.insert(k, x);
    }
    assert_eq!(b.into_iter().collect::<Vec<_>>(), v);
}

#[test]
fn anahtar_sirasi_str_ile_ayni() {
    let ornekler = ["", "a", "ab", "b", "og:", "og:title", "og:çizim", "og:z", "Z", "ç", "\u{10000}", "\u{ffff}"];
    for a in ornekler {
        assert!(!once_mi(a, a));
        for b in ornekler {
            assert_eq!(once_mi(a, b), a < b, "{a:?} {b:?}");
        }
    }
}
