//! Inspecting a page: the URL check, the title, the description, the
//! OpenGraph tags, the JSON-LD objects, and what they describe.
use vstd::prelude::*;

use crate::html::{html_secimi, oge_gorunumleri, ogeleri_sec, Oge, OgeV};
use crate::json::{json_agaci, json_agaci_mi, json_kabugu, Json, JsonKabukV, JSON_DERINLIK};
use crate::jsonld::{
    detect_article_from_jsonld, detect_product_from_jsonld, ilk_makale, ilk_urun, ArticleInfo,
    ProductInfo,
};
use crate::metin::{
    ard_arda, ascii_harfsiz_esit, ascii_harfsiz_esit_mi, birlestir, bosluk_mu, gorunumler,
    ile_baslar, kirp, kirpilmis, kirpma_sonucu, kirpma_tanimi, secenek,
};
use crate::sozluk::SiraliSozluk;
use vstd::utf8::encode_utf8;

verus! {

#[verifier::external_type_specification]
#[verifier::external_body]
pub struct ExUrlParseError(url::ParseError);

/// What `url::Url::parse` gives for a text, serialized back; `None` when it
/// reports an error.
pub uninterp spec fn url_serilestirmesi(ham: Seq<char>) -> Option<Seq<char>>;

/// Calls `url::Url::parse` on `ham` and serializes the URL it gives
/// (`Url::as_str`). The contract claims only that the outcome is a function
/// of the text.
#[verifier::external_body]
fn url_ayristir(ham: &str) -> (r: Result<String, url::ParseError>)
    ensures
        match r {
            Ok(s) => url_serilestirmesi(ham@) == Some(s@),
            Err(_) => url_serilestirmesi(ham@) is None,
        },
{
    url::Url::parse(ham).map(|u| u.as_str().to_string())
}

/// Why a page could not be inspected.
pub enum IncelemeHatasi {
    /// The address is not a valid absolute URL.
    GecersizUrl(url::ParseError),
}

/// The address to fetch for `raw_url`, in the form the URL parser writes it;
/// an error when it is not a valid URL.
pub fn url_dogrula(raw_url: &str) -> (r: Result<String, IncelemeHatasi>)
    ensures
        r is Ok <==> url_serilestirmesi(raw_url@) is Some,
        r matches Ok(s) ==> Some(s@) == url_serilestirmesi(raw_url@),
{
    match url_ayristir(raw_url) {
        Ok(s) => Ok(s),
        Err(e) => Err(IncelemeHatasi::GecersizUrl(e)),
    }
}

// ── Title ───────────────────────────────────────────────────────────────────

/// The trimmed text of the first `title` element, unless empty.
pub open spec fn baslik(os: Seq<OgeV>) -> Option<Seq<char>> {
    if os.len() == 0 {
        None
    } else {
        let t = kirpilmis(ard_arda(os[0].metin));
        if t.len() == 0 {
            None
        } else {
            Some(t)
        }
    }
}

/// The page title is the whole text of the first `title` element with only
/// its leading and trailing white space removed, however long it is; a page
/// whose first title holds nothing but white space, or that has no title,
/// has none.
pub proof fn baslik_kurali(os: Seq<OgeV>)
    ensures
        os.len() == 0 ==> baslik(os) is None,
        os.len() > 0 ==> match baslik(os) {
            Some(t) => t.len() > 0 && kirpma_sonucu(ard_arda(os[0].metin), t),
            None => forall|k: int|
                0 <= k < ard_arda(os[0].metin).len() ==> bosluk_mu(
                    #[trigger] ard_arda(os[0].metin)[k],
                ),
        },
{
    if os.len() > 0 {
        let m = ard_arda(os[0].metin);
        kirpma_tanimi(m);
        let t = kirpilmis(m);
        if t.len() == 0 {
            let (a, b) = choose|a: int, b: int|
                0 <= a <= b <= m.len() && t == #[trigger] m.subrange(a, b) && (forall|k: int|
                    0 <= k < a ==> bosluk_mu(#[trigger] m[k])) && (forall|k: int|
                    b <= k < m.len() ==> bosluk_mu(#[trigger] m[k])) && (a < b ==> !bosluk_mu(m[a])
                    && !bosluk_mu(m[b - 1]));
            assert(m.subrange(a, b).len() == b - a);
            assert forall|k: int| 0 <= k < m.len() implies bosluk_mu(#[trigger] m[k]) by {
                if k < a {
                } else {
                    assert(k >= b);
                }
            }
        }
    }
}

/// The page title: the trimmed text of the first `title` element, if not empty.
pub fn baslik_bul(basliklar: &Vec<Oge>) -> (r: Option<String>)
    ensures
        secenek(r) == baslik(oge_gorunumleri(basliklar@)),
{
    if basliklar.len() == 0 {
        return None;
    }
    let m = birlestir(&basliklar[0].metin);
    let t = kirp(m.as_str());
    if t.as_str().is_empty() {
        None
    } else {
        Some(t)
    }
}

// ── Meta tags ───────────────────────────────────────────────────────────────

/// The value of the `i`-th attribute asked for.
pub open spec fn nitelik(o: OgeV, i: int) -> Option<Seq<char>> {
    if 0 <= i < o.nitelikler.len() {
        o.nitelikler[i]
    } else {
        None
    }
}

/// The trimmed `content` of a meta tag (its first attribute asked for).
pub open spec fn icerik(o: OgeV) -> Seq<char> {
    match nitelik(o, 0) {
        Some(c) => kirpilmis(c),
        None => Seq::empty(),
    }
}

/// A meta tag whose `name` (second attribute) is `description`, ASCII case ignored.
pub open spec fn aciklama_etiketi(o: OgeV) -> bool {
    nitelik(o, 1) matches Some(n) && ascii_harfsiz_esit_mi(encode_utf8(n), encode_utf8("description"@))
}

/// A meta tag whose `property` (third attribute) begins with `og:`.
pub open spec fn og_etiketi(o: OgeV) -> bool {
    nitelik(o, 2) matches Some(p) && "og:"@.is_prefix_of(p)
}

/// The content of the last description tag with non-empty content.
pub open spec fn aciklama(os: Seq<OgeV>) -> Option<Seq<char>>
    decreases os.len(),
{
    if os.len() == 0 {
        None
    } else if icerik(os.last()).len() > 0 && aciklama_etiketi(os.last()) {
        Some(icerik(os.last()))
    } else {
        aciklama(os.drop_last())
    }
}

/// The OpenGraph tags with non-empty content, later tags replacing earlier
/// ones with the same property.
pub open spec fn acik_grafik(os: Seq<OgeV>) -> Map<Seq<char>, Seq<char>>
    decreases os.len(),
{
    if os.len() == 0 {
        Map::empty()
    } else {
        let m = acik_grafik(os.drop_last());
        let o = os.last();
        if icerik(o).len() > 0 && og_etiketi(o) {
            m.insert(nitelik(o, 2).unwrap(), icerik(o))
        } else {
            m
        }
    }
}

/// A meta tag that gives the description: named `description` (ASCII case
/// ignored) with non-empty trimmed content.
pub open spec fn aciklama_verir(o: OgeV) -> bool {
    icerik(o).len() > 0 && aciklama_etiketi(o)
}

/// A meta tag that gives the OpenGraph property `p`: its property is `p`,
/// which begins with `og:`, and its trimmed content is not empty.
pub open spec fn og_verir(o: OgeV, p: Seq<char>) -> bool {
    icerik(o).len() > 0 && og_etiketi(o) && nitelik(o, 2) == Some(p)
}

/// The description is the trimmed content of the last description tag with
/// non-empty content, whatever the tags after it are.
pub proof fn aciklama_kurali(os: Seq<OgeV>, i: int)
    requires
        0 <= i < os.len(),
        aciklama_verir(os[i]),
        forall|j: int| i < j < os.len() ==> !aciklama_verir(#[trigger] os[j]),
    ensures
        aciklama(os) == Some(icerik(os[i])),
    decreases os.len(),
{
    if i < os.len() - 1 {
        let t = os.drop_last();
        assert(!aciklama_verir(os[os.len() - 1]));
        assert forall|j: int| i < j < t.len() implies !aciklama_verir(#[trigger] t[j]) by {
            assert(t[j] == os[j]);
        }
        assert(t[i] == os[i]);
        aciklama_kurali(t, i);
    }
}

/// No description tag with content, no description.
pub proof fn aciklamasiz(os: Seq<OgeV>)
    requires
        forall|j: int| 0 <= j < os.len() ==> !aciklama_verir(#[trigger] os[j]),
    ensures
        aciklama(os) is None,
    decreases os.len(),
{
    if os.len() > 0 {
        let t = os.drop_last();
        assert(!aciklama_verir(os[os.len() - 1]));
        assert forall|j: int| 0 <= j < t.len() implies !aciklama_verir(#[trigger] t[j]) by {
            assert(t[j] == os[j]);
        }
        aciklamasiz(t);
    }
}

/// The OpenGraph tags: the property `p` is present exactly when some tag
/// gives it.
pub proof fn acik_grafik_anahtari(os: Seq<OgeV>, p: Seq<char>)
    ensures
        acik_grafik(os).contains_key(p) <==> exists|i: int|
            0 <= i < os.len() && og_verir(#[trigger] os[i], p),
    decreases os.len(),
{
    if os.len() > 0 {
        let t = os.drop_last();
        let n = t.len() as int;
        let o = os.last();
        acik_grafik_anahtari(t, p);
        assert(os[n] == o);
        if og_verir(o, p) {
        } else {
            if exists|i: int| 0 <= i < os.len() && og_verir(#[trigger] os[i], p) {
                let i = choose|i: int| 0 <= i < os.len() && og_verir(#[trigger] os[i], p);
                assert(i < n);
                assert(os[i] == t[i]);
            }
            if exists|i: int| 0 <= i < t.len() && og_verir(#[trigger] t[i], p) {
                let i = choose|i: int| 0 <= i < t.len() && og_verir(#[trigger] t[i], p);
                assert(os[i] == t[i]);
            }
        }
    }
}

/// The value of the OpenGraph property `p` is the content of the last tag
/// that gives it: a later tag replaces an earlier one.
pub proof fn acik_grafik_degeri(os: Seq<OgeV>, p: Seq<char>, i: int)
    requires
        0 <= i < os.len(),
        og_verir(os[i], p),
        forall|j: int| i < j < os.len() ==> !og_verir(#[trigger] os[j], p),
    ensures
        acik_grafik(os).contains_key(p),
        acik_grafik(os)[p] == icerik(os[i]),
    decreases os.len(),
{
    let t = os.drop_last();
    let n = t.len() as int;
    if i < n {
        assert(!og_verir(os[n], p));
        assert(t[i] == os[i]);
        assert forall|j: int| i < j < t.len() implies !og_verir(#[trigger] t[j], p) by {
            assert(t[j] == os[j]);
        }
        acik_grafik_degeri(t, p, i);
    }
}

fn nitelik_al(o: &Oge, i: usize) -> (r: Option<String>)
    ensures
        secenek(r) == nitelik(o@, i as int),
{
    if i < o.nitelikler.len() {
        match &o.nitelikler[i] {
            Some(s) => Some(s.clone()),
            None => None,
        }
    } else {
        None
    }
}

/// The description and the OpenGraph tags of the meta tags `metalar`, each
/// read with the attributes `content`, `name` and `property`, in that order.
pub fn meta_bilgileri(metalar: &Vec<Oge>) -> (r: (Option<String>, SiraliSozluk))
    ensures
        secenek(r.0) == aciklama(oge_gorunumleri(metalar@)),
        r.1@ == acik_grafik(oge_gorunumleri(metalar@)),
{
    let ghost os = oge_gorunumleri(metalar@);
    let mut description: Option<String> = None;
    let mut open_graph = SiraliSozluk::new();
    let mut i: usize = 0;
    while i < metalar.len()
        invariant
            i <= metalar@.len(),
            os == oge_gorunumleri(metalar@),
            secenek(description) == aciklama(os.take(i as int)),
            open_graph@ == acik_grafik(os.take(i as int)),
        decreases metalar.len() - i,
    {
        proof {
            assert(os.take(i + 1).drop_last() =~= os.take(i as int));
            assert(os.take(i + 1).last() == metalar@[i as int]@);
        }
        let o = &metalar[i];
        let content = match nitelik_al(o, 0) {
            Some(c) => kirp(c.as_str()),
            None => String::new(),
        };
        if !content.as_str().is_empty() {
            match nitelik_al(o, 1) {
                Some(name) => {
                    if ascii_harfsiz_esit(name.as_str(), "description") {
                        description = Some(content.clone());
                    }
                },
                None => {},
            }
            match nitelik_al(o, 2) {
                Some(property) => {
                    if ile_baslar(property.as_str(), "og:") {
                        open_graph.insert(property, content);
                    }
                },
                None => {},
            }
        }
        i = i + 1;
    }
    assert(os.take(i as int) =~= os);
    (description, open_graph)
}

// ── JSON-LD ─────────────────────────────────────────────────────────────────

/// The JSON-LD objects that one script contributes: none when it does not
/// parse, the elements of a top-level array, or the one value it holds.
pub open spec fn betik_nesneleri_mi(p: Seq<Json>, betik: Seq<char>) -> bool {
    match json_kabugu(betik) {
        None => p.len() == 0,
        Some(JsonKabukV::Dizi(_)) => exists|js: Vec<Json>|
            json_agaci_mi(Json::Dizi(js), betik, JSON_DERINLIK as nat) && p == js@,
        Some(_) => p.len() == 1 && json_agaci_mi(p[0], betik, JSON_DERINLIK as nat),
    }
}

/// Sequences put one after another.
pub open spec fn ardisik<A>(s: Seq<Seq<A>>) -> Seq<A>
    decreases s.len(),
{
    if s.len() == 0 {
        Seq::empty()
    } else {
        ardisik(s.drop_last()) + s.last()
    }
}

/// `nesneler` are the JSON-LD objects of the scripts `betikler`, in order.
pub open spec fn json_ld_nesneleri_mi(nesneler: Seq<Json>, betikler: Seq<Seq<char>>) -> bool {
    exists|parcalar: Seq<Seq<Json>>|
        {
            &&& parcalar.len() == betikler.len()
            &&& forall|i: int|
                0 <= i < parcalar.len() ==> betik_nesneleri_mi(#[trigger] parcalar[i], betikler[i])
            &&& nesneler == ardisik(parcalar)
        }
}

/// The inner HTML of each script.
pub open spec fn betik_metinleri(os: Seq<OgeV>) -> Seq<Seq<char>> {
    os.map_values(|o: OgeV| o.ic_html)
}

/// The JSON-LD objects of the scripts `betikler`: each script's text is
/// parsed as JSON; a top-level array gives its elements, any other value
/// gives itself, and a text that does not parse gives nothing.
pub fn json_ld_nesneleri(betikler: &Vec<Oge>) -> (r: Vec<Json>)
    ensures
        json_ld_nesneleri_mi(r@, betik_metinleri(oge_gorunumleri(betikler@))),
{
    let ghost metinler = betik_metinleri(oge_gorunumleri(betikler@));
    let ghost mut parcalar: Seq<Seq<Json>> = Seq::empty();
    let mut r: Vec<Json> = Vec::new();
    let mut i: usize = 0;
    while i < betikler.len()
        invariant
            i <= betikler@.len(),
            metinler == betik_metinleri(oge_gorunumleri(betikler@)),
            parcalar.len() == i,
            forall|m: int| 0 <= m < i ==> betik_nesneleri_mi(#[trigger] parcalar[m], metinler[m]),
            r@ == ardisik(parcalar),
        decreases betikler.len() - i,
    {
        let metin = betikler[i].ic_html.as_str();
        assert(metin@ == metinler[i as int]);
        let ghost eski_p = parcalar;
        match json_agaci(metin, JSON_DERINLIK) {
            Some(Json::Dizi(items)) => {
                let ghost js = items;
                let mut items = items;
                r.append(&mut items);
                proof {
                    assert(json_agaci_mi(Json::Dizi(js), metin@, JSON_DERINLIK as nat));
                    assert(betik_nesneleri_mi(js@, metinler[i as int]));
                    parcalar = parcalar.push(js@);
                }
            },
            Some(other) => {
                let ghost o = other;
                r.push(other);
                proof {
                    assert(betik_nesneleri_mi(seq![o], metinler[i as int]));
                    parcalar = parcalar.push(seq![o]);
                }
            },
            None => {
                proof {
                    parcalar = parcalar.push(Seq::empty());
                }
            },
        }
        proof {
            assert(parcalar.drop_last() =~= eski_p);
            assert(r@ =~= ardisik(parcalar));
        }
        i = i + 1;
    }
    r
}

// ── The inspection ──────────────────────────────────────────────────────────

/// What an inspection found on a page.
pub struct MetaInspection {
    pub url: String,
    pub title: Option<String>,
    pub description: Option<String>,
    pub open_graph: SiraliSozluk,
    pub json_ld_objects: Vec<Json>,
    pub detected_product: Option<ProductInfo>,
    pub detected_article: Option<ArticleInfo>,
}

/// The inspection of a page at `url`, from its `title` elements, its `meta`
/// tags (read with `content`, `name`, `property`) and its JSON-LD scripts.
pub open spec fn inceleme_mi(
    r: MetaInspection,
    url: Seq<char>,
    basliklar: Seq<OgeV>,
    metalar: Seq<OgeV>,
    betikler: Seq<OgeV>,
) -> bool {
    &&& r.url@ == url
    &&& secenek(r.title) == baslik(basliklar)
    &&& secenek(r.description) == aciklama(metalar)
    &&& r.open_graph@ == acik_grafik(metalar)
    &&& json_ld_nesneleri_mi(r.json_ld_objects@, betik_metinleri(betikler))
    &&& match r.detected_product {
        Some(p) => ilk_urun(r.json_ld_objects@) == Some(p@),
        None => ilk_urun(r.json_ld_objects@) is None,
    }
    &&& match r.detected_article {
        Some(a) => ilk_makale(r.json_ld_objects@) == Some(a@),
        None => ilk_makale(r.json_ld_objects@) is None,
    }
}

/// Puts an inspection together from the elements selected on the page.
pub fn inceleme_olustur(
    url: String,
    basliklar: &Vec<Oge>,
    metalar: &Vec<Oge>,
    betikler: &Vec<Oge>,
) -> (r: MetaInspection)
    ensures
        inceleme_mi(
            r,
            url@,
            oge_gorunumleri(basliklar@),
            oge_gorunumleri(metalar@),
            oge_gorunumleri(betikler@),
        ),
{
    let title = baslik_bul(basliklar);
    let (description, open_graph) = meta_bilgileri(metalar);
    let json_ld_objects = json_ld_nesneleri(betikler);
    let detected_product = detect_product_from_jsonld(&json_ld_objects);
    let detected_article = detect_article_from_jsonld(&json_ld_objects);
    MetaInspection {
        url,
        title,
        description,
        open_graph,
        json_ld_objects,
        detected_product,
        detected_article,
    }
}

/// The attributes read of meta tags.
pub open spec fn meta_nitelikleri() -> Seq<Seq<char>> {
    seq!["content"@, "name"@, "property"@]
}

/// The selector of JSON-LD scripts.
pub open spec fn json_ld_secicisi() -> Seq<char> {
    "script[type='application/ld+json']"@
}

/// Inspects the page `govde` fetched from `url`: the `title`, the `meta`
/// tags and the `script[type='application/ld+json']` elements of the document.
pub fn sayfayi_incele(url: String, govde: &str) -> (r: MetaInspection)
    ensures
        ({
            let b = html_secimi(govde@, "title"@, Seq::empty());
            let m = html_secimi(govde@, "meta"@, meta_nitelikleri());
            let s = html_secimi(govde@, json_ld_secicisi(), Seq::empty());
            inceleme_mi(
                r,
                url@,
                if b is Some { b.unwrap() } else { Seq::empty() },
                if m is Some { m.unwrap() } else { Seq::empty() },
                if s is Some { s.unwrap() } else { Seq::empty() },
            )
        }),
{
    let bos: Vec<String> = Vec::new();
    let meta_adlari = vec!["content".to_owned(), "name".to_owned(), "property".to_owned()];
    assert(gorunumler(bos@) =~= Seq::empty());
    assert(gorunumler(meta_adlari@) =~= meta_nitelikleri());
    let basliklar = match ogeleri_sec(govde, "title", &bos) {
        Some(v) => v,
        None => {
            let v: Vec<Oge> = Vec::new();
            assert(oge_gorunumleri(v@) =~= Seq::empty());
            v
        },
    };
    let metalar = match ogeleri_sec(govde, "meta", &meta_adlari) {
        Some(v) => v,
        None => {
            let v: Vec<Oge> = Vec::new();
            assert(oge_gorunumleri(v@) =~= Seq::empty());
            v
        },
    };
    let betikler = match ogeleri_sec(govde, "script[type='application/ld+json']", &bos) {
        Some(v) => v,
        None => {
            let v: Vec<Oge> = Vec::new();
            assert(oge_gorunumleri(v@) =~= Seq::empty());
            v
        },
    };
    inceleme_olustur(url, &basliklar, &metalar, &betikler)
}

} // verus!
