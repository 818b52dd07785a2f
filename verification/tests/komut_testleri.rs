use fiyat_arama::gorunum::{
    benzin_basligi, bolum_basligi, doviz_kurlari, inceleme_raporu, yardim_basligi,
    yardim_satirlari, Tespit,
};
use fiyat_arama::inceleme::sayfayi_incele;
use fiyat_arama::komut::{
    ara_sorgusu, arama_basligi, komut_satiri, menu_eylemi, menu_ogeleri, repl_adimi, repl_komutlari, tamamla,
    urun_arama_komutu, Commands, MenuEylemi, ReplEylemi, ReplOlayi,
};

#[test]
fn baslik_kutusu() {
    assert_eq!(bolum_basligi("ab"), vec!["\n┌──────┐", "│  ab  │", "└──────┘"]);
    // "Ç" takes two bytes, so the border is six wide.
    assert_eq!(bolum_basligi("Ç"), vec!["\n┌──────┐", "│  Ç  │", "└──────┘"]);
    assert_eq!(bolum_basligi(""), vec!["\n┌────┐", "│    │", "└────┘"]);
}

#[test]
fn baslik_kenarlari_esit() {
    let b = bolum_basligi("Site İnceleme Raporu");
    let ust: Vec<char> = b[0].chars().skip(2).collect();
    let alt: Vec<char> = b[2].chars().skip(1).collect();
    assert_eq!(ust, alt.iter().map(|c| if *c == '┘' { '┐' } else { *c }).collect::<Vec<_>>());
    assert_eq!(b[0].chars().count(), "Site İnceleme Raporu".len() + 4 + 3);
}

#[test]
fn yardim_metni() {
    assert_eq!(yardim_basligi(), "fiyat-arama Komutları");
    let s = yardim_satirlari();
    assert_eq!(s.len(), 7);
    assert_eq!(s[0], "  fiyat-arama help");
    assert_eq!(s[2], "  fiyat-arama benzin [SEHIR] [ILCE] [--sirala]");
    assert_eq!(s[5], "");
    assert_eq!(s[6], "İpucu: Standart yardım için `fiyat-arama --help` de çalışır.");
}

#[test]
fn doviz_demosu() {
    let k = doviz_kurlari();
    let satirlar: Vec<(&str, &str, &str)> =
        k.iter().map(|d| (d.birim.as_str(), d.alis.as_str(), d.satis.as_str())).collect();
    assert_eq!(
        satirlar,
        vec![("USD/TRY", "38.42", "38.47"), ("EUR/TRY", "43.60", "43.68"), ("GBP/TRY", "50.10", "50.20")]
    );
}

#[test]
fn arama_sorgusu() {
    let v = |x: &[&str]| x.iter().map(|s| s.to_string()).collect::<Vec<_>>();
    assert_eq!(ara_sorgusu(&v(&["iphone", "15"])).as_deref(), Some("iphone 15"));
    assert_eq!(ara_sorgusu(&v(&[" a", "b "])).as_deref(), Some(" a b "));
    assert_eq!(ara_sorgusu(&v(&["  ", ""])), None);
    assert_eq!(ara_sorgusu(&v(&[])), None);
    assert_eq!(arama_basligi("iphone 15"), "Ürün Arama: iphone 15");
    assert_eq!(benzin_basligi("istanbul"), "Benzin Fiyatları — istanbul");
}

#[test]
fn menu_kararlari() {
    let ogeler = menu_ogeleri();
    assert_eq!(ogeler.len(), 7);
    assert!(matches!(menu_eylemi(Some(&ogeler[0])), MenuEylemi::Calistir(Commands::Help)));
    assert!(matches!(menu_eylemi(Some("1. Döviz Kurları")), MenuEylemi::Calistir(Commands::Doviz)));
    assert!(matches!(
        menu_eylemi(Some("2. Benzin Fiyatları")),
        MenuEylemi::Calistir(Commands::Benzin { sehir: None, ilce: None, sirala: true })
    ));
    assert!(matches!(menu_eylemi(Some("3. Ürün Ara")), MenuEylemi::UrunSor));
    assert!(matches!(menu_eylemi(Some("4. Site İncele")), MenuEylemi::UrlSor));
    assert!(matches!(menu_eylemi(Some("5. REPL Komut Modu")), MenuEylemi::Repl));
    assert!(matches!(menu_eylemi(Some("6. Çıkış")), MenuEylemi::Cikis));
    assert!(matches!(menu_eylemi(Some("7. Başka")), MenuEylemi::Hicbiri));
    assert!(matches!(menu_eylemi(None), MenuEylemi::Cikis));
    match urun_arama_komutu("kalem".to_string()) {
        Commands::Ara { urun_adi } => assert_eq!(urun_adi, vec!["kalem"]),
        _ => panic!("arama komutu bekleniyordu"),
    }
}

fn satir(s: &str) -> ReplEylemi {
    repl_adimi(ReplOlayi::Satir(s.to_string()))
}

#[test]
fn repl_kararlari() {
    assert!(matches!(satir("   "), ReplEylemi::Devam));
    assert!(matches!(satir(""), ReplEylemi::Devam));
    match satir("  exit ") {
        ReplEylemi::Cikis { gecmis } => assert_eq!(gecmis, "exit"),
        _ => panic!("çıkış bekleniyordu"),
    }
    assert!(matches!(satir("quit"), ReplEylemi::Cikis { .. }));
    match satir(" ara \"iphone 15\" kılıf ") {
        ReplEylemi::Calistir { gecmis, argv } => {
            assert_eq!(gecmis, "ara \"iphone 15\" kılıf");
            assert_eq!(argv, vec!["fiyat-arama", "ara", "iphone 15", "kılıf"]);
        }
        _ => panic!("komut bekleniyordu"),
    }
    match satir("ara 'iphone") {
        ReplEylemi::Ayristirilamadi { gecmis } => assert_eq!(gecmis, "ara 'iphone"),
        _ => panic!("ayrıştırma hatası bekleniyordu"),
    }
    assert!(matches!(satir("exit now"), ReplEylemi::Calistir { .. }));
    assert!(matches!(repl_adimi(ReplOlayi::Kesildi), ReplEylemi::Cik));
    assert!(matches!(repl_adimi(ReplOlayi::Bitti), ReplEylemi::Cik));
    assert!(matches!(repl_adimi(ReplOlayi::Hata), ReplEylemi::HataIleCik));
}

#[test]
fn sekme_tamamlama() {
    let k = repl_komutlari();
    assert_eq!(k, vec!["help", "doviz", "benzin", "ara", "incele", "exit", "quit"]);
    assert_eq!(tamamla(&k, "ara be", 6), (4, vec!["benzin".to_string()]));
    assert_eq!(tamamla(&k, "", 0), (0, k.clone()));
    assert_eq!(tamamla(&k, "e", 1), (0, vec!["exit".to_string()]));
    assert_eq!(tamamla(&k, "in xyz", 2), (0, vec!["incele".to_string()]));
    assert_eq!(tamamla(&k, "ç ", 3), (3, k.clone()));
    assert_eq!(tamamla(&k, "x q", 3), (2, vec!["quit".to_string()]));
    assert_eq!(tamamla(&k, "hx", 2), (0, vec![]));
}

#[test]
fn inceleme_raporu_satirlari() {
    let sayfa = r#"<title>T</title><script type="application/ld+json">{"@type":"Article","author":"A"}</script>"#;
    let ins = sayfayi_incele("https://x.org/".to_string(), sayfa);
    let r = inceleme_raporu(&ins);
    let bilgi: Vec<(&str, &str)> = r.bilgiler.iter().map(|(a, b)| (a.as_str(), b.as_str())).collect();
    assert_eq!(bilgi, vec![("URL", "https://x.org/"), ("Başlık", "T"), ("Açıklama", "—")]);
    assert!(r.acik_grafik.is_empty());
    assert_eq!(r.json_ld_adedi, 1);
    match &r.tespit {
        Tespit::Makale(v) => {
            let v: Vec<(&str, &str)> = v.iter().map(|(a, b)| (a.as_str(), b.as_str())).collect();
            assert_eq!(v, vec![("Başlık", "—"), ("Yazar", "A"), ("Yayın Tarihi", "—")]);
        }
        _ => panic!("makale bekleniyordu"),
    }

    let sayfa = r#"<meta property="og:x" content="1"><script type="application/ld+json">[{"@type":"Article"},{"@type":"Product","name":"P"}]</script>"#;
    let r = inceleme_raporu(&sayfayi_incele("u".to_string(), sayfa));
    match &r.tespit {
        Tespit::Urun(v) => {
            let v: Vec<(&str, &str)> = v.iter().map(|(a, b)| (a.as_str(), b.as_str())).collect();
            assert_eq!(v, vec![("İsim", "P"), ("Fiyat", "—"), ("Para Birimi", "—"), ("Stok Durumu", "—")]);
        }
        _ => panic!("ürün bekleniyordu"),
    }
    assert_eq!(r.acik_grafik, vec![("og:x".to_string(), "1".to_string())]);

    let r = inceleme_raporu(&sayfayi_incele("u".to_string(), "<p></p>"));
    assert!(matches!(r.tespit, Tespit::Yok));
    assert_eq!(r.json_ld_adedi, 0);
}

#[test]
fn komut_satiri_program_adiyla() {
    assert_eq!(komut_satiri(vec!["doviz".to_string()]), vec!["fiyat-arama", "doviz"]);
    assert_eq!(komut_satiri(vec![]), vec!["fiyat-arama"]);
}
