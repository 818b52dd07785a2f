//! The text that the program shows: section headings, the help text, the
//! demo exchange rates, and the rows of the page inspection report.
use vstd::prelude::*;

use crate::inceleme::MetaInspection;
use crate::jsonld::{ArticleInfo, ProductInfo};
use crate::metin::secenek;
use vstd::utf8::encode_utf8;

verus! {

/// `n` copies of `c`.
pub open spec fn tekrar(c: char, n: nat) -> Seq<char> {
    Seq::new(n, |_i: int| c)
}

/// The border of a heading box for `baslik`: as many `─` as its UTF-8 bytes, plus four.
pub open spec fn cizgi(baslik: Seq<char>) -> Seq<char> {
    tekrar('─', encode_utf8(baslik).len() + 4)
}

/// The three printed lines of a heading box around `baslik`; the first
/// begins with an empty line.
pub open spec fn baslik_kutusu(baslik: Seq<char>) -> Seq<Seq<char>> {
    seq![
        seq!['\n', '┌'] + cizgi(baslik) + seq!['┐'],
        seq!['│', ' ', ' '] + baslik + seq![' ', ' ', '│'],
        seq!['└'] + cizgi(baslik) + seq!['┘'],
    ]
}

/// The lines of a section heading: `baslik` in a box whose width is its
/// length in bytes plus four.
pub fn bolum_basligi(baslik: &str) -> (r: Vec<String>)
    requires
        encode_utf8(baslik@).len() + 4 <= usize::MAX,
    ensures
        r@.map_values(|s: String| s@) == baslik_kutusu(baslik@),
{
    let n = baslik.as_bytes().len() + 4;
    let mut c = String::new();
    let mut i: usize = 0;
    while i < n
        invariant
            i <= n,
            c@ == tekrar('─', i as nat),
        decreases n - i,
    {
        c.push('─');
        i = i + 1;
        assert(c@ =~= tekrar('─', i as nat));
    }
    let mut ust = String::new();
    ust.push('\n');
    ust.push('┌');
    ust.append(c.as_str());
    ust.push('┐');
    let mut orta = String::new();
    orta.push('│');
    orta.push(' ');
    orta.push(' ');
    orta.append(baslik);
    orta.push(' ');
    orta.push(' ');
    orta.push('│');
    let mut alt = String::new();
    alt.push('└');
    alt.append(c.as_str());
    alt.push('┘');
    assert(c@ == cizgi(baslik@));
    assert(ust@ =~= seq!['\n', '┌'] + cizgi(baslik@) + seq!['┐']);
    assert(orta@ =~= seq!['│', ' ', ' '] + baslik@ + seq![' ', ' ', '│']);
    assert(alt@ =~= seq!['└'] + cizgi(baslik@) + seq!['┘']);
    let r = vec![ust, orta, alt];
    assert(r@.map_values(|s: String| s@) =~= baslik_kutusu(baslik@));
    r
}

/// The heading box's top and bottom borders are equally long, and each is
/// four characters wider than the title's UTF-8 byte count, plus its corners.
pub proof fn baslik_kutusu_hizali(baslik: Seq<char>)
    ensures
        baslik_kutusu(baslik)[0].len() == encode_utf8(baslik).len() + 7,
        baslik_kutusu(baslik)[2].len() == encode_utf8(baslik).len() + 6,
        baslik_kutusu(baslik)[0].drop_first() == baslik_kutusu(baslik)[2].update(0, '┌').update(
            baslik_kutusu(baslik)[2].len() - 1,
            '┐',
        ),
{
    let b = baslik_kutusu(baslik);
    assert(b[0].drop_first() =~= b[2].update(0, '┌').update(b[2].len() - 1, '┐'));
}

/// The title of the help text.
pub fn yardim_basligi() -> (r: String)
    ensures
        r@ == "fiyat-arama Komutları"@,
{
    "fiyat-arama Komutları".to_owned()
}

/// The lines of the help text printed under its heading.
pub fn yardim_satirlari() -> (r: Vec<String>)
    ensures
        r@.map_values(|s: String| s@) == seq![
            "  fiyat-arama help"@,
            "  fiyat-arama doviz"@,
            "  fiyat-arama benzin [SEHIR] [ILCE] [--sirala]"@,
            "  fiyat-arama ara <URUN_ADI...>"@,
            "  fiyat-arama incele <URL>"@,
            ""@,
            "İpucu: Standart yardım için `fiyat-arama --help` de çalışır."@,
        ],
{
    let r = vec![
        "  fiyat-arama help".to_owned(),
        "  fiyat-arama doviz".to_owned(),
        "  fiyat-arama benzin [SEHIR] [ILCE] [--sirala]".to_owned(),
        "  fiyat-arama ara <URUN_ADI...>".to_owned(),
        "  fiyat-arama incele <URL>".to_owned(),
        "".to_owned(),
        "İpucu: Standart yardım için `fiyat-arama --help` de çalışır.".to_owned(),
    ];
    assert(r@.map_values(|s: String| s@) =~= seq![
        "  fiyat-arama help"@,
        "  fiyat-arama doviz"@,
        "  fiyat-arama benzin [SEHIR] [ILCE] [--sirala]"@,
        "  fiyat-arama ara <URUN_ADI...>"@,
        "  fiyat-arama incele <URL>"@,
        ""@,
        "İpucu: Standart yardım için `fiyat-arama --help` de çalışır."@,
    ]);
    r
}

/// One demo exchange rate: the pair, the buying and the selling price.
pub struct DovizKuru {
    pub birim: String,
    pub alis: String,
    pub satis: String,
}

/// The demo exchange rates, in the order shown.
pub fn doviz_kurlari() -> (r: Vec<DovizKuru>)
    ensures
        r@.len() == 3,
        r@[0].birim@ == "USD/TRY"@ && r@[0].alis@ == "38.42"@ && r@[0].satis@ == "38.47"@,
        r@[1].birim@ == "EUR/TRY"@ && r@[1].alis@ == "43.60"@ && r@[1].satis@ == "43.68"@,
        r@[2].birim@ == "GBP/TRY"@ && r@[2].alis@ == "50.10"@ && r@[2].satis@ == "50.20"@,
{
    vec![
        DovizKuru {
            birim: "USD/TRY".to_owned(),
            alis: "38.42".to_owned(),
            satis: "38.47".to_owned(),
        },
        DovizKuru {
            birim: "EUR/TRY".to_owned(),
            alis: "43.60".to_owned(),
            satis: "43.68".to_owned(),
        },
        DovizKuru {
            birim: "GBP/TRY".to_owned(),
            alis: "50.10".to_owned(),
            satis: "50.20".to_owned(),
        },
    ]
}

/// The title of the price table of `konum`.
pub fn benzin_basligi(konum: &str) -> (r: String)
    ensures
        r@ == "Benzin Fiyatları — "@ + konum@,
{
    let mut r = "Benzin Fiyatları — ".to_owned();
    r.append(konum);
    r
}

// ── Inspection report ───────────────────────────────────────────────────────

/// What stands in a cell with no value.
pub open spec fn bos_deger() -> Seq<char> {
    "—"@
}

/// A value, or the dash when there is none.
pub open spec fn ya_da_bos(o: Option<Seq<char>>) -> Seq<char> {
    match o {
        Some(s) => s,
        None => bos_deger(),
    }
}

fn deger_ya_da_bos(o: &Option<String>) -> (r: String)
    ensures
        r@ == ya_da_bos(secenek(*o)),
{
    match o {
        Some(s) => s.clone(),
        None => "—".to_owned(),
    }
}

/// The views of a list of labelled rows.
pub open spec fn satir_gorunumleri(v: Seq<(String, String)>) -> Seq<(Seq<char>, Seq<char>)> {
    v.map_values(|p: (String, String)| (p.0@, p.1@))
}

/// What the report says was found in the JSON-LD.
pub enum Tespit {
    Urun(Vec<(String, String)>),
    Makale(Vec<(String, String)>),
    Yok,
}

/// The rows of the report of an inspection.
pub struct Rapor {
    /// URL, title and description.
    pub bilgiler: Vec<(String, String)>,
    /// The OpenGraph tags in key order; empty when there are none.
    pub acik_grafik: Vec<(String, String)>,
    /// The number of JSON-LD objects.
    pub json_ld_adedi: usize,
    /// The product, else the article, else nothing.
    pub tespit: Tespit,
}

/// The rows of a product.
pub open spec fn urun_satirlari(p: ProductInfo) -> Seq<(Seq<char>, Seq<char>)> {
    seq![
        ("İsim"@, p.name@),
        ("Fiyat"@, ya_da_bos(secenek(p.price))),
        ("Para Birimi"@, ya_da_bos(secenek(p.currency))),
        ("Stok Durumu"@, ya_da_bos(secenek(p.availability))),
    ]
}

/// The rows of an article.
pub open spec fn makale_satirlari(a: ArticleInfo) -> Seq<(Seq<char>, Seq<char>)> {
    seq![
        ("Başlık"@, ya_da_bos(secenek(a.headline))),
        ("Yazar"@, ya_da_bos(secenek(a.author))),
        ("Yayın Tarihi"@, ya_da_bos(secenek(a.date_published))),
    ]
}

/// The report of the inspection `ins`: its URL, title and description (a
/// dash for a missing one), its OpenGraph tags in key order, the number of
/// JSON-LD objects, and the product found, or else the article found.
pub fn inceleme_raporu(ins: &MetaInspection) -> (r: Rapor)
    ensures
        satir_gorunumleri(r.bilgiler@) == seq![
            ("URL"@, ins.url@),
            ("Başlık"@, ya_da_bos(secenek(ins.title))),
            ("Açıklama"@, ya_da_bos(secenek(ins.description))),
        ],
        satir_gorunumleri(r.acik_grafik@) == ins.open_graph.ciftler(),
        r.json_ld_adedi == ins.json_ld_objects@.len(),
        match (ins.detected_product, ins.detected_article) {
            (Some(p), _) => r.tespit matches Tespit::Urun(v) && satir_gorunumleri(v@)
                == urun_satirlari(p),
            (None, Some(a)) => r.tespit matches Tespit::Makale(v) && satir_gorunumleri(v@)
                == makale_satirlari(a),
            (None, None) => r.tespit is Yok,
        },
{
    let bilgiler = vec![
        ("URL".to_owned(), ins.url.clone()),
        ("Başlık".to_owned(), deger_ya_da_bos(&ins.title)),
        ("Açıklama".to_owned(), deger_ya_da_bos(&ins.description)),
    ];
    assert(satir_gorunumleri(bilgiler@) =~= seq![
        ("URL"@, ins.url@),
        ("Başlık"@, ya_da_bos(secenek(ins.title))),
        ("Açıklama"@, ya_da_bos(secenek(ins.description))),
    ]);
    let kaynak = ins.open_graph.ogeler();
    let mut acik_grafik: Vec<(String, String)> = Vec::new();
    let mut i: usize = 0;
    while i < kaynak.len()
        invariant
            i <= kaynak@.len(),
            acik_grafik@.len() == i,
            forall|k: int|
                0 <= k < i ==> (#[trigger] acik_grafik@[k]).0@ == kaynak@[k].0@ && acik_grafik@[k].1@
                    == kaynak@[k].1@,
        decreases kaynak.len() - i,
    {
        acik_grafik.push((kaynak[i].0.clone(), kaynak[i].1.clone()));
        i = i + 1;
    }
    assert(satir_gorunumleri(acik_grafik@) =~= kaynak@.map_values(
        |p: (String, String)| (p.0@, p.1@),
    ));
    let tespit = match &ins.detected_product {
        Some(p) => {
            let v = vec![
                ("İsim".to_owned(), p.name.clone()),
                ("Fiyat".to_owned(), deger_ya_da_bos(&p.price)),
                ("Para Birimi".to_owned(), deger_ya_da_bos(&p.currency)),
                ("Stok Durumu".to_owned(), deger_ya_da_bos(&p.availability)),
            ];
            assert(satir_gorunumleri(v@) =~= urun_satirlari(*p));
            Tespit::Urun(v)
        },
        None => match &ins.detected_article {
            Some(a) => {
                let v = vec![
                    ("Başlık".to_owned(), deger_ya_da_bos(&a.headline)),
                    ("Yazar".to_owned(), deger_ya_da_bos(&a.author)),
                    ("Yayın Tarihi".to_owned(), deger_ya_da_bos(&a.date_published)),
                ];
                assert(satir_gorunumleri(v@) =~= makale_satirlari(*a));
                Tespit::Makale(v)
            },
            None => Tespit::Yok,
        },
    };
    Rapor { bilgiler, acik_grafik, json_ld_adedi: ins.json_ld_objects.len(), tespit }
}

} // verus!
