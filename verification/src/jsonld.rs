//! Reading a product or an article out of a page's JSON-LD objects.
use vstd::prelude::*;

use crate::json::Json;
use crate::metin::{
    ascii_harfsiz_esit, ascii_harfsiz_esit_mi, metin_esit, secenek, shorten_schema_url,
    son_parca,
};
use vstd::utf8::encode_utf8;

verus! {

// ── Reading members ─────────────────────────────────────────────────────────

/// The value of the first member named `k` among `ps`.
pub open spec fn alan_bul(ps: Seq<(String, Json)>, k: Seq<char>) -> Option<Json>
    decreases ps.len(),
{
    if ps.len() == 0 {
        None
    } else if ps[0].0@ == k {
        Some(ps[0].1)
    } else {
        alan_bul(ps.drop_first(), k)
    }
}

/// `Value::get(k)`: the member `k` of an object, `None` for any other value.
pub open spec fn uye(j: Json, k: Seq<char>) -> Option<Json> {
    match j {
        Json::Nesne(ps) => alan_bul(ps@, k),
        _ => None,
    }
}

/// `and_then(|o| o.get(k))`.
pub open spec fn uyesi(j: Option<Json>, k: Seq<char>) -> Option<Json> {
    match j {
        Some(x) => uye(x, k),
        None => None,
    }
}

/// `and_then(Value::as_str)`: the text of a string value.
pub open spec fn metni(j: Option<Json>) -> Option<Seq<char>> {
    match j {
        Some(Json::Metin(s)) => Some(s@),
        _ => None,
    }
}

proof fn lemma_alan_bul(ps: Seq<(String, Json)>, k: Seq<char>, i: int)
    requires
        0 <= i <= ps.len(),
        forall|m: int| 0 <= m < i ==> (#[trigger] ps[m]).0@ != k,
    ensures
        alan_bul(ps, k) == alan_bul(ps.skip(i), k),
    decreases i,
{
    if i == 0 {
        assert(ps.skip(0) =~= ps);
    } else {
        let t = ps.drop_first();
        assert forall|m: int| 0 <= m < i - 1 implies (#[trigger] t[m]).0@ != k by {
            assert(t[m] == ps[m + 1]);
        }
        lemma_alan_bul(t, k, i - 1);
        assert(t.skip(i - 1) =~= ps.skip(i));
    }
}

/// Reading a member: an object's member `k` is the value of its first member
/// named `k`; an object with no member of that name gives nothing.
pub proof fn uye_kurali(ps: Seq<(String, Json)>, k: Seq<char>, i: int)
    requires
        0 <= i < ps.len(),
        ps[i].0@ == k,
        forall|m: int| 0 <= m < i ==> (#[trigger] ps[m]).0@ != k,
    ensures
        alan_bul(ps, k) == Some(ps[i].1),
{
    lemma_alan_bul(ps, k, i);
    assert(ps.skip(i)[0] == ps[i]);
}

/// A member name that no member has gives nothing.
pub proof fn olmayan_uye(ps: Seq<(String, Json)>, k: Seq<char>)
    requires
        forall|m: int| 0 <= m < ps.len() ==> (#[trigger] ps[m]).0@ != k,
    ensures
        alan_bul(ps, k) is None,
{
    lemma_alan_bul(ps, k, ps.len() as int);
    assert(ps.skip(ps.len() as int).len() == 0);
}

#[verifier::loop_isolation(false)]
fn uye_getir<'a>(j: &'a Json, k: &str) -> (r: Option<&'a Json>)
    ensures
        match r {
            Some(x) => uye(*j, k@) == Some(*x),
            None => uye(*j, k@) is None,
        },
{
    match j {
        Json::Nesne(ps) => {
            let mut i: usize = 0;
            while i < ps.len()
                invariant
                    i <= ps@.len(),
                    forall|m: int| 0 <= m < i ==> (#[trigger] ps@[m]).0@ != k@,
                decreases ps.len() - i,
            {
                if metin_esit(ps[i].0.as_str(), k) {
                    proof {
                        lemma_alan_bul(ps@, k@, i as int);
                        assert(ps@.skip(i as int)[0] == ps@[i as int]);
                    }
                    return Some(&ps[i].1);
                }
                i = i + 1;
            }
            proof {
                lemma_alan_bul(ps@, k@, i as int);
            }
            None
        },
        _ => None,
    }
}

fn uyesini_getir<'a>(j: Option<&'a Json>, k: &str) -> (r: Option<&'a Json>)
    ensures
        match r {
            Some(x) => uyesi(
                match j {
                    Some(y) => Some(*y),
                    None => None,
                },
                k@,
            ) == Some(*x),
            None => uyesi(
                match j {
                    Some(y) => Some(*y),
                    None => None,
                },
                k@,
            ) is None,
        },
{
    match j {
        Some(x) => uye_getir(x, k),
        None => None,
    }
}

/// The referenced value, as an owned option.
pub open spec fn deger(j: Option<&Json>) -> Option<Json> {
    match j {
        Some(y) => Some(*y),
        None => None,
    }
}

fn metin_al(j: Option<&Json>) -> (r: Option<String>)
    ensures
        secenek(r) == metni(deger(j)),
{
    match j {
        Some(Json::Metin(s)) => Some(s.clone()),
        _ => None,
    }
}

// ── Types ───────────────────────────────────────────────────────────────────

/// `x` is a string that matches `beklenen` ignoring ASCII case.
pub open spec fn metin_eslesir(x: Json, beklenen: Seq<char>) -> bool {
    x matches Json::Metin(s) && ascii_harfsiz_esit_mi(encode_utf8(s@), encode_utf8(beklenen))
}

/// The `@type` of `item` is `beklenen`, or an array holding it, ignoring ASCII case.
pub open spec fn tur_eslesir(item: Json, beklenen: Seq<char>) -> bool {
    match uye(item, "@type"@) {
        Some(Json::Metin(t)) => ascii_harfsiz_esit_mi(encode_utf8(t@), encode_utf8(beklenen)),
        Some(Json::Dizi(arr)) => exists|i: int|
            0 <= i < arr@.len() && #[trigger] metin_eslesir(arr@[i], beklenen),
        _ => false,
    }
}

/// Whether the JSON-LD `item` declares the type `expected` (ASCII case ignored),
/// either as its `@type` string or as one of the strings of an `@type` array.
#[verifier::loop_isolation(false)]
pub fn json_ld_has_type(item: &Json, expected: &str) -> (r: bool)
    ensures
        r == tur_eslesir(*item, expected@),
{
    match uye_getir(item, "@type") {
        Some(Json::Metin(t)) => ascii_harfsiz_esit(t.as_str(), expected),
        Some(Json::Dizi(arr)) => {
            let mut i: usize = 0;
            while i < arr.len()
                invariant
                    i <= arr@.len(),
                    forall|m: int| 0 <= m < i ==> !#[trigger] metin_eslesir(arr@[m], expected@),
                decreases arr.len() - i,
            {
                match &arr[i] {
                    Json::Metin(s) => {
                        if ascii_harfsiz_esit(s.as_str(), expected) {
                            assert(metin_eslesir(arr@[i as int], expected@));
                            return true;
                        }
                    },
                    _ => {},
                }
                i = i + 1;
            }
            false
        },
        _ => false,
    }
}

// ── Offers ──────────────────────────────────────────────────────────────────

/// The offer read from `offers`: itself when an object, its first element
/// when an array, nothing otherwise.
pub open spec fn teklif(offers: Option<Json>) -> Option<Json> {
    match offers {
        Some(Json::Nesne(_)) => offers,
        Some(Json::Dizi(arr)) => if arr@.len() > 0 {
            Some(arr@[0])
        } else {
            None
        },
        _ => None,
    }
}

/// A price given as a string or as a number.
pub open spec fn fiyat_metni(j: Option<Json>) -> Option<Seq<char>> {
    match j {
        Some(Json::Metin(s)) => Some(s@),
        Some(Json::Sayi(n)) => Some(n@),
        _ => None,
    }
}

/// Price, currency and the last segment of the availability URL of an offer.
pub open spec fn teklif_alanlari(offers: Option<Json>) -> (
    Option<Seq<char>>,
    Option<Seq<char>>,
    Option<Seq<char>>,
) {
    let o = teklif(offers);
    (
        fiyat_metni(uyesi(o, "price"@)),
        metni(uyesi(o, "priceCurrency"@)),
        match metni(uyesi(o, "availability"@)) {
            Some(s) => Some(son_parca(s)),
            None => None,
        },
    )
}

/// Price, currency and availability of an `offers` value.
pub fn extract_offer_fields(offers: Option<&Json>) -> (r: (
    Option<String>,
    Option<String>,
    Option<String>,
))
    ensures
        (secenek(r.0), secenek(r.1), secenek(r.2)) == teklif_alanlari(deger(offers)),
{
    let offer: Option<&Json> = match offers {
        Some(Json::Nesne(_)) => offers,
        Some(Json::Dizi(arr)) => if arr.len() > 0 {
            Some(&arr[0])
        } else {
            None
        },
        _ => None,
    };
    assert(deger(offer) == teklif(deger(offers)));
    let price = match uyesini_getir(offer, "price") {
        Some(Json::Metin(s)) => Some(s.clone()),
        Some(Json::Sayi(n)) => Some(n.clone()),
        _ => None,
    };
    let currency = metin_al(uyesini_getir(offer, "priceCurrency"));
    let availability = match metin_al(uyesini_getir(offer, "availability")) {
        Some(s) => Some(shorten_schema_url(s.as_str())),
        None => None,
    };
    (price, currency, availability)
}

// ── Product ─────────────────────────────────────────────────────────────────

/// A product found in JSON-LD.
pub struct ProductInfo {
    pub name: String,
    pub price: Option<String>,
    pub currency: Option<String>,
    pub availability: Option<String>,
}

/// The view of a [`ProductInfo`].
pub struct UrunV {
    pub name: Seq<char>,
    pub price: Option<Seq<char>>,
    pub currency: Option<Seq<char>>,
    pub availability: Option<Seq<char>>,
}

impl View for ProductInfo {
    type V = UrunV;

    open spec fn view(&self) -> UrunV {
        UrunV {
            name: self.name@,
            price: secenek(self.price),
            currency: secenek(self.currency),
            availability: secenek(self.availability),
        }
    }
}

/// The product that `item` describes; its name defaults to `(adı bulunamadı)`.
pub open spec fn urun_bilgisi(item: Json) -> UrunV {
    let t = teklif_alanlari(uye(item, "offers"@));
    UrunV {
        name: match metni(uye(item, "name"@)) {
            Some(s) => s,
            None => "(adı bulunamadı)"@,
        },
        price: t.0,
        currency: t.1,
        availability: t.2,
    }
}

/// The product of the first item typed `Product`.
pub open spec fn ilk_urun(items: Seq<Json>) -> Option<UrunV>
    decreases items.len(),
{
    if items.len() == 0 {
        None
    } else if tur_eslesir(items[0], "Product"@) {
        Some(urun_bilgisi(items[0]))
    } else {
        ilk_urun(items.drop_first())
    }
}

/// Finding the product: when some item is typed `Product`, the product is
/// read from the first such item, whatever stands before or after it: its
/// `name` (or the default), and the price, currency and the last segment of
/// the availability of its offer.
pub proof fn urun_kurali(items: Seq<Json>, i: int)
    requires
        0 <= i < items.len(),
        tur_eslesir(items[i], "Product"@),
        forall|j: int| 0 <= j < i ==> !tur_eslesir(#[trigger] items[j], "Product"@),
    ensures
        ilk_urun(items) == Some(
            (UrunV {
                name: match metni(uye(items[i], "name"@)) {
                    Some(s) => s,
                    None => "(adı bulunamadı)"@,
                },
                price: fiyat_metni(uyesi(teklif(uye(items[i], "offers"@)), "price"@)),
                currency: metni(uyesi(teklif(uye(items[i], "offers"@)), "priceCurrency"@)),
                availability: match metni(
                    uyesi(teklif(uye(items[i], "offers"@)), "availability"@),
                ) {
                    Some(s) => Some(son_parca(s)),
                    None => None,
                },
            }),
        ),
    decreases i,
{
    if i > 0 {
        assert(!tur_eslesir(items[0], "Product"@));
        let d = items.drop_first();
        assert forall|j: int| 0 <= j < i - 1 implies !tur_eslesir(#[trigger] d[j], "Product"@) by {
            assert(d[j] == items[j + 1]);
        }
        assert(d[i - 1] == items[i]);
        urun_kurali(d, i - 1);
    }
}

/// No item typed `Product`, no product.
pub proof fn urunsuz(items: Seq<Json>)
    requires
        forall|j: int| 0 <= j < items.len() ==> !tur_eslesir(#[trigger] items[j], "Product"@),
    ensures
        ilk_urun(items) is None,
    decreases items.len(),
{
    if items.len() > 0 {
        assert(!tur_eslesir(items[0], "Product"@));
        let d = items.drop_first();
        assert forall|j: int| 0 <= j < d.len() implies !tur_eslesir(#[trigger] d[j], "Product"@) by {
            assert(d[j] == items[j + 1]);
        }
        urunsuz(d);
    }
}

/// The product described by the first JSON-LD item typed `Product`, if any.
pub fn detect_product_from_jsonld(items: &Vec<Json>) -> (r: Option<ProductInfo>)
    ensures
        match r {
            Some(p) => ilk_urun(items@) == Some(p@),
            None => ilk_urun(items@) is None,
        },
{
    let mut i: usize = 0;
    assert(items@.skip(0) =~= items@);
    while i < items.len()
        invariant
            i <= items@.len(),
            ilk_urun(items@) == ilk_urun(items@.skip(i as int)),
        decreases items.len() - i,
    {
        let item = &items[i];
        assert(items@.skip(i as int).drop_first() =~= items@.skip(i + 1));
        if json_ld_has_type(item, "Product") {
            let name = match metin_al(uye_getir(item, "name")) {
                Some(s) => s,
                None => "(adı bulunamadı)".to_owned(),
            };
            let (price, currency, availability) = extract_offer_fields(uye_getir(item, "offers"));
            let p = ProductInfo { name, price, currency, availability };
            assert(p@ == urun_bilgisi(*item));
            return Some(p);
        }
        i = i + 1;
    }
    None
}

// ── Article ─────────────────────────────────────────────────────────────────

/// An article found in JSON-LD.
pub struct ArticleInfo {
    pub headline: Option<String>,
    pub author: Option<String>,
    pub date_published: Option<String>,
}

/// The view of an [`ArticleInfo`].
pub struct MakaleV {
    pub headline: Option<Seq<char>>,
    pub author: Option<Seq<char>>,
    pub date_published: Option<Seq<char>>,
}

impl View for ArticleInfo {
    type V = MakaleV;

    open spec fn view(&self) -> MakaleV {
        MakaleV {
            headline: secenek(self.headline),
            author: secenek(self.author),
            date_published: secenek(self.date_published),
        }
    }
}

/// The first string `name` among the elements of `arr`.
pub open spec fn ilk_ad(arr: Seq<Json>) -> Option<Seq<char>>
    decreases arr.len(),
{
    if arr.len() == 0 {
        None
    } else {
        match metni(uye(arr[0], "name"@)) {
            Some(s) => Some(s),
            None => ilk_ad(arr.drop_first()),
        }
    }
}

/// The author: a string, the `name` of an object, or the first `name` in an array.
pub open spec fn yazar(a: Option<Json>) -> Option<Seq<char>> {
    match a {
        Some(Json::Metin(s)) => Some(s@),
        Some(Json::Nesne(ps)) => metni(alan_bul(ps@, "name"@)),
        Some(Json::Dizi(arr)) => ilk_ad(arr@),
        _ => None,
    }
}

/// The article that `item` describes.
pub open spec fn makale_bilgisi(item: Json) -> MakaleV {
    MakaleV {
        headline: metni(uye(item, "headline"@)),
        author: yazar(uye(item, "author"@)),
        date_published: metni(uye(item, "datePublished"@)),
    }
}

/// The article of the first item typed `Article`.
pub open spec fn ilk_makale(items: Seq<Json>) -> Option<MakaleV>
    decreases items.len(),
{
    if items.len() == 0 {
        None
    } else if tur_eslesir(items[0], "Article"@) {
        Some(makale_bilgisi(items[0]))
    } else {
        ilk_makale(items.drop_first())
    }
}

#[verifier::loop_isolation(false)]
fn yazar_al(a: Option<&Json>) -> (r: Option<String>)
    ensures
        secenek(r) == yazar(deger(a)),
{
    match a {
        Some(Json::Metin(s)) => Some(s.clone()),
        Some(Json::Nesne(ps)) => {
            let j = a.unwrap();
            let r = metin_al(uye_getir(j, "name"));
            r
        },
        Some(Json::Dizi(arr)) => {
            let mut i: usize = 0;
            assert(arr@.skip(0) =~= arr@);
            while i < arr.len()
                invariant
                    i <= arr@.len(),
                    ilk_ad(arr@) == ilk_ad(arr@.skip(i as int)),
                decreases arr.len() - i,
            {
                assert(arr@.skip(i as int).drop_first() =~= arr@.skip(i + 1));
                let n = metin_al(uye_getir(&arr[i], "name"));
                if n.is_some() {
                    assert(arr@.skip(i as int)[0] == arr@[i as int]);
                    return n;
                }
                i = i + 1;
            }
            None
        },
        _ => None,
    }
}

/// Finding the article: when some item is typed `Article`, the article is
/// read from the first such item: its own `headline`, its `author`, and its
/// own `datePublished`, each a string member of that item (no other member,
/// such as `dateModified`, stands in for a missing one).
pub proof fn makale_kurali(items: Seq<Json>, i: int)
    requires
        0 <= i < items.len(),
        tur_eslesir(items[i], "Article"@),
        forall|j: int| 0 <= j < i ==> !tur_eslesir(#[trigger] items[j], "Article"@),
    ensures
        ilk_makale(items) == Some(
            (MakaleV {
                headline: metni(uye(items[i], "headline"@)),
                author: yazar(uye(items[i], "author"@)),
                date_published: metni(uye(items[i], "datePublished"@)),
            }),
        ),
    decreases i,
{
    if i > 0 {
        assert(!tur_eslesir(items[0], "Article"@));
        let d = items.drop_first();
        assert forall|j: int| 0 <= j < i - 1 implies !tur_eslesir(#[trigger] d[j], "Article"@) by {
            assert(d[j] == items[j + 1]);
        }
        assert(d[i - 1] == items[i]);
        makale_kurali(d, i - 1);
    }
}

/// No item typed `Article`, no article.
pub proof fn makalesiz(items: Seq<Json>)
    requires
        forall|j: int| 0 <= j < items.len() ==> !tur_eslesir(#[trigger] items[j], "Article"@),
    ensures
        ilk_makale(items) is None,
    decreases items.len(),
{
    if items.len() > 0 {
        assert(!tur_eslesir(items[0], "Article"@));
        let d = items.drop_first();
        assert forall|j: int| 0 <= j < d.len() implies !tur_eslesir(#[trigger] d[j], "Article"@) by {
            assert(d[j] == items[j + 1]);
        }
        makalesiz(d);
    }
}

/// The author: a string author is itself, an object author is its string
/// `name`, and an array of authors gives the first string `name` among its
/// elements, in order.
pub proof fn yazar_kurali(arr: Seq<Json>, i: int)
    requires
        0 <= i < arr.len(),
        metni(uye(arr[i], "name"@)) is Some,
        forall|j: int| 0 <= j < i ==> metni(uye(#[trigger] arr[j], "name"@)) is None,
    ensures
        ilk_ad(arr) == metni(uye(arr[i], "name"@)),
    decreases i,
{
    if i > 0 {
        assert(metni(uye(arr[0], "name"@)) is None);
        let d = arr.drop_first();
        assert forall|j: int| 0 <= j < i - 1 implies metni(uye(#[trigger] d[j], "name"@)) is None by {
            assert(d[j] == arr[j + 1]);
        }
        assert(d[i - 1] == arr[i]);
        yazar_kurali(d, i - 1);
    }
}

/// The article described by the first JSON-LD item typed `Article`, if any.
pub fn detect_article_from_jsonld(items: &Vec<Json>) -> (r: Option<ArticleInfo>)
    ensures
        match r {
            Some(a) => ilk_makale(items@) == Some(a@),
            None => ilk_makale(items@) is None,
        },
{
    let mut i: usize = 0;
    assert(items@.skip(0) =~= items@);
    while i < items.len()
        invariant
            i <= items@.len(),
            ilk_makale(items@) == ilk_makale(items@.skip(i as int)),
        decreases items.len() - i,
    {
        let item = &items[i];
        assert(items@.skip(i as int).drop_first() =~= items@.skip(i + 1));
        if json_ld_has_type(item, "Article") {
            let headline = metin_al(uye_getir(item, "headline"));
            let author = yazar_al(uye_getir(item, "author"));
            let date_published = metin_al(uye_getir(item, "datePublished"));
            let a = ArticleInfo { headline, author, date_published };
            assert(a@ == makale_bilgisi(*item));
            return Some(a);
        }
        i = i + 1;
    }
    None
}

} // verus!
