//! Fuel prices: the list of cities and the price table of one city, read out
//! of the pages of doviz.com.
use vstd::prelude::*;
use vstd::utf8::encode_utf8;

use crate::html::{hucreleri_sec, html_hucre_secimi, html_secimi, oge_gorunumleri, ogeleri_sec, Oge, OgeV};
use crate::metin::{
    ard_arda, birlestir, egik_kirpilmis, egikleri_kirp, gorunumler, ile_baslar, karakter_icerir,
    karakterler, kirp, kirpilmis, metin_esit, aralik_metni,
};

verus! {

/// A city offered for selection: its name and the slug of its page.
pub struct SehirBilgi {
    pub ad: String,
    pub slug: String,
}

/// The view of a [`SehirBilgi`].
pub struct SehirV {
    pub ad: Seq<char>,
    pub slug: Seq<char>,
}

impl View for SehirBilgi {
    type V = SehirV;

    open spec fn view(&self) -> SehirV {
        SehirV { ad: self.ad@, slug: self.slug@ }
    }
}

/// One row of a price table: distributor, petrol, diesel and LPG prices.
pub struct BenzinFiyati {
    pub dagitici: String,
    pub benzin: String,
    pub motorin: String,
    pub lpg: String,
}

/// The view of a [`BenzinFiyati`].
pub struct FiyatV {
    pub dagitici: Seq<char>,
    pub benzin: Seq<char>,
    pub motorin: Seq<char>,
    pub lpg: Seq<char>,
}

impl View for BenzinFiyati {
    type V = FiyatV;

    open spec fn view(&self) -> FiyatV {
        FiyatV {
            dagitici: self.dagitici@,
            benzin: self.benzin@,
            motorin: self.motorin@,
            lpg: self.lpg@,
        }
    }
}

/// The views of a list of cities.
pub open spec fn sehir_gorunumleri(v: Seq<SehirBilgi>) -> Seq<SehirV> {
    v.map_values(|s: SehirBilgi| s@)
}

/// The views of a list of price rows.
pub open spec fn fiyat_gorunumleri(v: Seq<BenzinFiyati>) -> Seq<FiyatV> {
    v.map_values(|f: BenzinFiyati| f@)
}

/// The page that lists the cities.
pub fn sehir_listesi_url() -> (r: String)
    ensures
        r@ == "https://www.doviz.com/akaryakit-fiyatlari"@,
{
    "https://www.doviz.com/akaryakit-fiyatlari".to_owned()
}

/// What a city link begins with, and what a city page address begins with.
pub open spec fn sehir_oneki() -> Seq<char> {
    "https://www.doviz.com/akaryakit-fiyatlari/"@
}

/// The page of the prices of the city `sehir_slug`.
pub fn benzin_fiyat_url(sehir_slug: &str) -> (r: String)
    ensures
        r@ == sehir_oneki() + sehir_slug@,
{
    let mut r = "https://www.doviz.com/akaryakit-fiyatlari/".to_owned();
    r.append(sehir_slug);
    r
}

// ── Cities ──────────────────────────────────────────────────────────────────

/// The `href` of a link; empty when it has none.
pub open spec fn href(o: OgeV) -> Seq<char> {
    if o.nitelikler.len() > 0 {
        match o.nitelikler[0] {
            Some(h) => h,
            None => Seq::empty(),
        }
    } else {
        Seq::empty()
    }
}

/// The city slug that a link points at, trimmed of slashes.
pub open spec fn link_slug(o: OgeV) -> Seq<char> {
    egik_kirpilmis(href(o).skip(sehir_oneki().len() as int))
}

/// One link read: the cities so far and the slugs seen so far become the next ones.
/// A slug is seen once its link passes the slug checks, whether or not its name is kept.
pub open spec fn sehir_adimi(durum: (Seq<SehirV>, Seq<Seq<char>>), o: OgeV) -> (
    Seq<SehirV>,
    Seq<Seq<char>>,
) {
    let sehirler = durum.0;
    let goruldu = durum.1;
    let slug = link_slug(o);
    if !sehir_oneki().is_prefix_of(href(o)) {
        durum
    } else if slug.len() == 0 || slug.contains('/') || goruldu.contains(slug) {
        durum
    } else {
        let ad = kirpilmis(ard_arda(o.metin));
        if ad.len() > 0 && encode_utf8(ad).len() < 60 {
            (sehirler.push(SehirV { ad, slug }), goruldu.push(slug))
        } else {
            (sehirler, goruldu.push(slug))
        }
    }
}

/// The links read in order.
pub open spec fn sehir_taramasi(os: Seq<OgeV>) -> (Seq<SehirV>, Seq<Seq<char>>)
    decreases os.len(),
{
    if os.len() == 0 {
        (Seq::empty(), Seq::empty())
    } else {
        sehir_adimi(sehir_taramasi(os.drop_last()), os.last())
    }
}

/// A city as the list keeps it: a name of fewer than 60 UTF-8 bytes, and a
/// slug that is neither empty nor holds a `/`.
pub open spec fn gecerli_sehir(s: SehirV) -> bool {
    &&& s.ad.len() > 0
    &&& encode_utf8(s.ad).len() < 60
    &&& s.slug.len() > 0
    &&& !s.slug.contains('/')
}

/// No two cities of the list share a slug.
pub open spec fn sluglar_farkli(v: Seq<SehirV>) -> bool {
    forall|i: int, j: int| 0 <= i < j < v.len() ==> v[i].slug != v[j].slug
}

fn listede(v: &Vec<String>, s: &String) -> (r: bool)
    ensures
        r == gorunumler(v@).contains(s@),
{
    let mut i: usize = 0;
    while i < v.len()
        invariant
            i <= v@.len(),
            forall|j: int| 0 <= j < i ==> v@[j]@ != s@,
        decreases v.len() - i,
    {
        if metin_esit(v[i].as_str(), s.as_str()) {
            assert(gorunumler(v@)[i as int] == s@);
            return true;
        }
        i = i + 1;
    }
    assert forall|j: int| 0 <= j < gorunumler(v@).len() implies gorunumler(v@)[j] != s@ by {
        assert(gorunumler(v@)[j] == v@[j]@);
    }
    false
}

fn link_href(o: &Oge) -> (r: String)
    ensures
        r@ == href(o@),
{
    if o.nitelikler.len() > 0 {
        match &o.nitelikler[0] {
            Some(h) => h.clone(),
            None => String::new(),
        }
    } else {
        String::new()
    }
}

/// A link that points at the page of the city `s`.
pub open spec fn aday(o: OgeV, s: Seq<char>) -> bool {
    sehir_oneki().is_prefix_of(href(o)) && link_slug(o) == s
}

/// A slug that the list can hold: not empty, with no `/`.
pub open spec fn gecerli_slug(s: Seq<char>) -> bool {
    s.len() > 0 && !s.contains('/')
}

/// The name that a link gives: its text, trimmed.
pub open spec fn link_adi(o: OgeV) -> Seq<char> {
    kirpilmis(ard_arda(o.metin))
}

/// A name that the list keeps: not empty, and under 60 UTF-8 bytes.
pub open spec fn gecerli_ad(ad: Seq<char>) -> bool {
    ad.len() > 0 && encode_utf8(ad).len() < 60
}

/// The `i`-th link is the first one that points at the city `s`.
pub open spec fn ilk_aday(os: Seq<OgeV>, s: Seq<char>, i: int) -> bool {
    &&& 0 <= i < os.len()
    &&& aday(os[i], s)
    &&& forall|j: int| 0 <= j < i ==> !aday(#[trigger] os[j], s)
}

/// The city list, link by link: a slug is seen once some link points at
/// it, and the list holds the city `s` named `ad` exactly when the first
/// link pointing at `s` gives the name `ad`, and that name is kept (not
/// empty, under 60 bytes). A later link to the same city changes nothing,
/// even when the first one's name was not kept.
pub proof fn sehir_listesi_kurali(os: Seq<OgeV>, s: Seq<char>, ad: Seq<char>)
    requires
        gecerli_slug(s),
    ensures
        sehir_taramasi(os).1.contains(s) <==> exists|i: int|
            0 <= i < os.len() && aday(#[trigger] os[i], s),
        sehir_taramasi(os).0.contains(SehirV { ad, slug: s }) <==> exists|i: int|
            #[trigger] ilk_aday(os, s, i) && link_adi(os[i]) == ad && gecerli_ad(ad),
    decreases os.len(),
{
    let e = SehirV { ad, slug: s };
    if os.len() == 0 {
        assert(!sehir_taramasi(os).1.contains(s));
        assert(!sehir_taramasi(os).0.contains(e));
    } else {
        let t = os.drop_last();
        let n = t.len() as int;
        let o = os.last();
        sehir_listesi_kurali(t, s, ad);
        let (a, g) = sehir_taramasi(t);
        let (a2, g2) = sehir_taramasi(os);
        assert(os[n] == o);
        assert forall|i: int| 0 <= i < n implies os[i] == t[i] by {}
        let eski_var = exists|i: int| 0 <= i < t.len() && aday(#[trigger] t[i], s);
        let yeni_var = exists|i: int| 0 <= i < os.len() && aday(#[trigger] os[i], s);
        // Links before the last one keep their standing.
        if eski_var {
            let i = choose|i: int| 0 <= i < t.len() && aday(#[trigger] t[i], s);
            assert(os[i] == t[i]);
        }
        if yeni_var && !aday(o, s) {
            let i = choose|i: int| 0 <= i < os.len() && aday(#[trigger] os[i], s);
            assert(i < n);
            assert(t[i] == os[i]);
        }
        if yeni_var && aday(o, s) && !eski_var {
            assert(ilk_aday(os, s, n));
        }
        assert forall|i: int| 0 <= i < n implies ilk_aday(os, s, i) == ilk_aday(t, s, i) by {
            assert forall|j: int| 0 <= j < i implies os[j] == t[j] by {}
        }
        if exists|i: int| #[trigger] ilk_aday(os, s, i) && link_adi(os[i]) == ad && gecerli_ad(ad) {
            let i = choose|i: int| #[trigger] ilk_aday(os, s, i) && link_adi(os[i]) == ad && gecerli_ad(ad);
            if i < n {
                assert(ilk_aday(t, s, i));
                assert(t[i] == os[i]);
            }
        }
        if exists|i: int| #[trigger] ilk_aday(t, s, i) && link_adi(t[i]) == ad && gecerli_ad(ad) {
            let i = choose|i: int| #[trigger] ilk_aday(t, s, i) && link_adi(t[i]) == ad && gecerli_ad(ad);
            assert(ilk_aday(os, s, i));
            assert(t[i] == os[i]);
        }
        if aday(o, s) && eski_var {
            let i = choose|i: int| 0 <= i < t.len() && aday(#[trigger] t[i], s);
            assert(os[i] == t[i]);
            assert(!ilk_aday(os, s, n));
        }
        if !aday(o, s) {
            assert(!ilk_aday(os, s, n));
        }
        lemma_seq_push_icerir(a, e);
        lemma_seq_push_icerir(g, s);
        let slug = link_slug(o);
        if sehir_oneki().is_prefix_of(href(o)) && !(slug.len() == 0 || slug.contains('/')
            || g.contains(slug)) {
            let yeni = SehirV { ad: link_adi(o), slug };
            lemma_push_icerir(a, yeni, e);
            lemma_push_icerir(g, slug, s);
            if slug == s {
                assert(!eski_var);
                assert(ilk_aday(os, s, n));
            }
        }
    }
}

/// Every city that the scan keeps is one the list can hold.
proof fn lemma_tarama_gecerli(os: Seq<OgeV>)
    ensures
        forall|k: int|
            0 <= k < sehir_taramasi(os).0.len() ==> gecerli_sehir(
                #[trigger] sehir_taramasi(os).0[k],
            ),
    decreases os.len(),
{
    if os.len() > 0 {
        let t = os.drop_last();
        lemma_tarama_gecerli(t);
        let rt = sehir_taramasi(t).0;
        let r = sehir_taramasi(os).0;
        assert forall|k: int| 0 <= k < r.len() implies gecerli_sehir(#[trigger] r[k]) by {
            if k < rt.len() {
                assert(r[k] == rt[k]);
            }
        }
    }
}

/// The city list is in link order: of two cities of the list, the one that
/// comes first has its first link earlier in the page.
pub proof fn sehir_listesi_sirasi(os: Seq<OgeV>, a: int, b: int, i: int, j: int)
    requires
        0 <= a < b < sehir_taramasi(os).0.len(),
        ilk_aday(os, sehir_taramasi(os).0[a].slug, i),
        ilk_aday(os, sehir_taramasi(os).0[b].slug, j),
    ensures
        i < j,
    decreases os.len(),
{
    let t = os.drop_last();
    let n = t.len() as int;
    let o = os.last();
    let (r, _g0) = sehir_taramasi(os);
    let (rt, g) = sehir_taramasi(t);
    assert forall|k: int| 0 <= k < n implies os[k] == t[k] by {}
    assert(os[n] == o);
    lemma_tarama_gecerli(t);
    // A city already kept before the last link has its first link before it.
    assert forall|c: int, x: int|
        0 <= c < rt.len() && ilk_aday(os, rt[c].slug, x) implies x < n && ilk_aday(
        t,
        rt[c].slug,
        x,
    ) by {
        let e = rt[c];
        assert(gecerli_sehir(e));
        assert(rt.contains(e));
        sehir_listesi_kurali(t, e.slug, e.ad);
        let y = choose|y: int| #[trigger] ilk_aday(t, e.slug, y) && link_adi(t[y]) == e.ad && gecerli_ad(e.ad);
        assert(os[y] == t[y]);
        assert(ilk_aday(os, e.slug, y));
        if x < y {
            assert(!aday(os[x], e.slug));
        }
        if y < x {
            assert(!aday(os[y], e.slug));
        }
        assert(x == y);
        assert forall|k: int| 0 <= k < x implies !aday(#[trigger] t[k], e.slug) by {
            assert(os[k] == t[k]);
        }
    }
    if r.len() == rt.len() {
        assert(r == rt);
        sehir_listesi_sirasi(t, a, b, i, j);
    } else {
        let slug = link_slug(o);
        assert(r == rt.push(SehirV { ad: link_adi(o), slug }));
        assert(r[a] == rt[a]);
        if b < rt.len() {
            assert(r[b] == rt[b]);
            sehir_listesi_sirasi(t, a, b, i, j);
        } else {
            assert(r[b].slug == slug);
            assert(!g.contains(slug));
            sehir_listesi_kurali(t, slug, link_adi(o));
            if j < n {
                assert(t[j] == os[j]);
                assert(aday(t[j], slug));
            }
        }
    }
}

proof fn lemma_seq_push_icerir<A>(a: Seq<A>, x: A)
    ensures
        a.push(x).contains(x),
{
    assert(a.push(x)[a.len() as int] == x);
}

proof fn lemma_push_icerir<A>(a: Seq<A>, x: A, y: A)
    ensures
        a.push(x).contains(y) <==> a.contains(y) || x == y,
{
    if a.contains(y) {
        let i = choose|i: int| 0 <= i < a.len() && a[i] == y;
        assert(a.push(x)[i] == y);
    }
    if a.push(x).contains(y) {
        let i = choose|i: int| 0 <= i < a.push(x).len() && a.push(x)[i] == y;
        if i < a.len() {
            assert(a[i] == y);
        }
    }
    if x == y {
        assert(a.push(x)[a.len() as int] == y);
    }
}

/// The cities linked from the list page, in link order: each link whose
/// `href` begins with the city prefix gives the slug after it, trimmed of
/// slashes; a slug that is empty, holds a `/` or was seen before is skipped;
/// the name is the link's text, trimmed, kept only if non-empty and shorter
/// than 60 bytes.
pub fn sehirleri_cikar(baglantilar: &Vec<Oge>) -> (r: Vec<SehirBilgi>)
    ensures
        sehir_gorunumleri(r@) == sehir_taramasi(oge_gorunumleri(baglantilar@)).0,
        forall|i: int| 0 <= i < r@.len() ==> gecerli_sehir(#[trigger] r@[i]@),
        sluglar_farkli(sehir_gorunumleri(r@)),
{
    let mut r: Vec<SehirBilgi> = Vec::new();
    let mut goruldu: Vec<String> = Vec::new();
    let onek = "https://www.doviz.com/akaryakit-fiyatlari/";
    let onek_uzunlugu = karakterler(onek).len();
    let ghost os = oge_gorunumleri(baglantilar@);
    let mut i: usize = 0;
    while i < baglantilar.len()
        invariant
            i <= baglantilar@.len(),
            os == oge_gorunumleri(baglantilar@),
            onek@ == sehir_oneki(),
            onek_uzunlugu == sehir_oneki().len(),
            sehir_gorunumleri(r@) == sehir_taramasi(os.take(i as int)).0,
            gorunumler(goruldu@) == sehir_taramasi(os.take(i as int)).1,
            forall|k: int| 0 <= k < r@.len() ==> gecerli_sehir(#[trigger] r@[k]@),
            forall|k: int| 0 <= k < r@.len() ==> gorunumler(goruldu@).contains(#[trigger] r@[k]@.slug),
            sluglar_farkli(sehir_gorunumleri(r@)),
        decreases baglantilar.len() - i,
    {
        proof {
            assert(os.take(i + 1).drop_last() =~= os.take(i as int));
            assert(os.take(i + 1).last() == baglantilar@[i as int]@);
        }
        let o = &baglantilar[i];
        let h = link_href(o);
        if ile_baslar(h.as_str(), onek) {
            let hc = karakterler(h.as_str());
            let kalan = aralik_metni(&hc, onek_uzunlugu, hc.len());
            assert(kalan@ =~= href(o@).skip(sehir_oneki().len() as int));
            let slug = egikleri_kirp(kalan.as_str());
            if !(slug.as_str().is_empty() || karakter_icerir(slug.as_str(), '/') || listede(&goruldu, &slug)) {
                let ghost eski_goruldu = gorunumler(goruldu@);
                let ghost eski_r = sehir_gorunumleri(r@);
                goruldu.push(slug.clone());
                assert(gorunumler(goruldu@) =~= eski_goruldu.push(slug@));
                let metin = birlestir(&o.metin);
                let ad = kirp(metin.as_str());
                if !ad.as_str().is_empty() && ad.as_str().as_bytes().len() < 60 {
                    r.push(SehirBilgi { ad, slug });
                    assert(sehir_gorunumleri(r@) =~= eski_r.push(r@[r@.len() - 1]@));
                    assert forall|k: int| 0 <= k < r@.len() implies gorunumler(goruldu@).contains(#[trigger] r@[k]@.slug) by {
                        if k < r@.len() - 1 {
                            assert(eski_r[k] == r@[k]@);
                            assert(eski_goruldu.contains(r@[k]@.slug));
                            let w = choose|w: int| 0 <= w < eski_goruldu.len() && eski_goruldu[w] == r@[k]@.slug;
                            assert(gorunumler(goruldu@)[w] == r@[k]@.slug);
                        } else {
                            assert(gorunumler(goruldu@)[gorunumler(goruldu@).len() - 1] == slug@);
                        }
                    }
                    assert forall|a: int, b: int| 0 <= a < b < sehir_gorunumleri(r@).len() implies sehir_gorunumleri(r@)[a].slug != sehir_gorunumleri(r@)[b].slug by {
                        if b == r@.len() - 1 {
                            assert(eski_r[a] == r@[a]@);
                            assert(eski_goruldu.contains(eski_r[a].slug));
                        } else {
                            assert(eski_r[a] == sehir_gorunumleri(r@)[a]);
                            assert(eski_r[b] == sehir_gorunumleri(r@)[b]);
                        }
                    }
                } else {
                    assert forall|k: int| 0 <= k < r@.len() implies gorunumler(goruldu@).contains(#[trigger] r@[k]@.slug) by {
                        assert(eski_goruldu.contains(r@[k]@.slug));
                        let w = choose|w: int| 0 <= w < eski_goruldu.len() && eski_goruldu[w] == r@[k]@.slug;
                        assert(gorunumler(goruldu@)[w] == r@[k]@.slug);
                    }
                }
            }
        }
        i = i + 1;
    }
    assert(os.take(i as int) =~= os);
    r
}

/// The cities of the list page `html`.
pub fn benzin_sehirleri(html: &str) -> (r: Vec<SehirBilgi>)
    ensures
        match html_secimi(html@, "a[href]"@, seq!["href"@]) {
            Some(os) => sehir_gorunumleri(r@) == sehir_taramasi(os).0,
            None => r@.len() == 0,
        },
{
    let adlar = vec!["href".to_owned()];
    assert(gorunumler(adlar@) =~= seq!["href"@]);
    match ogeleri_sec(html, "a[href]", &adlar) {
        Some(os) => sehirleri_cikar(&os),
        None => Vec::new(),
    }
}

/// The names of the cities, in order, to choose from; an error when there are none.
pub fn sehir_secenekleri(sehirler: &Vec<SehirBilgi>) -> (r: Result<Vec<String>, BenzinHatasi>)
    ensures
        sehirler@.len() == 0 <==> r is Err,
        r matches Ok(adlar) ==> adlar@.len() == sehirler@.len() && forall|k: int|
            0 <= k < adlar@.len() ==> (#[trigger] adlar@[k])@ == sehirler@[k].ad@,
{
    if sehirler.len() == 0 {
        return Err(BenzinHatasi::SehirListesiBos);
    }
    let mut adlar: Vec<String> = Vec::new();
    let mut i: usize = 0;
    while i < sehirler.len()
        invariant
            i <= sehirler@.len(),
            adlar@.len() == i,
            forall|k: int| 0 <= k < i ==> (#[trigger] adlar@[k])@ == sehirler@[k].ad@,
        decreases sehirler.len() - i,
    {
        adlar.push(sehirler[i].ad.clone());
        i = i + 1;
    }
    Ok(adlar)
}

/// The slug of the first city named `secilen_ad`; empty when none is.
pub open spec fn slug_bul(sehirler: Seq<SehirV>, secilen_ad: Seq<char>) -> Seq<char>
    decreases sehirler.len(),
{
    if sehirler.len() == 0 {
        Seq::empty()
    } else if sehirler[0].ad == secilen_ad {
        sehirler[0].slug
    } else {
        slug_bul(sehirler.drop_first(), secilen_ad)
    }
}

/// Looking a city up by name: the slug is that of the first city whose name
/// is exactly the chosen name, whatever the cities after it are called.
pub proof fn secilen_sehrin_slugu(sehirler: Seq<SehirV>, secilen_ad: Seq<char>, i: int)
    requires
        0 <= i < sehirler.len(),
        sehirler[i].ad == secilen_ad,
        forall|j: int| 0 <= j < i ==> (#[trigger] sehirler[j]).ad != secilen_ad,
    ensures
        slug_bul(sehirler, secilen_ad) == sehirler[i].slug,
    decreases i,
{
    if i > 0 {
        assert(sehirler[0].ad != secilen_ad);
        let d = sehirler.drop_first();
        assert forall|j: int| 0 <= j < i - 1 implies (#[trigger] d[j]).ad != secilen_ad by {
            assert(d[j] == sehirler[j + 1]);
        }
        secilen_sehrin_slugu(d, secilen_ad, i - 1);
    }
}

/// A name that no city has gives the empty slug.
pub proof fn bilinmeyen_sehrin_slugu(sehirler: Seq<SehirV>, secilen_ad: Seq<char>)
    requires
        forall|j: int| 0 <= j < sehirler.len() ==> (#[trigger] sehirler[j]).ad != secilen_ad,
    ensures
        slug_bul(sehirler, secilen_ad) == Seq::<char>::empty(),
    decreases sehirler.len(),
{
    if sehirler.len() > 0 {
        assert(sehirler[0].ad != secilen_ad);
        let d = sehirler.drop_first();
        assert forall|j: int| 0 <= j < d.len() implies (#[trigger] d[j]).ad != secilen_ad by {
            assert(d[j] == sehirler[j + 1]);
        }
        bilinmeyen_sehrin_slugu(d, secilen_ad);
    }
}

/// The slug of the first city named `secilen_ad`, or an empty string.
pub fn sehir_slug_bul(sehirler: &Vec<SehirBilgi>, secilen_ad: &str) -> (r: String)
    ensures
        r@ == slug_bul(sehir_gorunumleri(sehirler@), secilen_ad@),
{
    let ghost g = sehir_gorunumleri(sehirler@);
    let mut i: usize = 0;
    assert(g.skip(0) =~= g);
    while i < sehirler.len()
        invariant
            i <= sehirler@.len(),
            g == sehir_gorunumleri(sehirler@),
            slug_bul(g, secilen_ad@) == slug_bul(g.skip(i as int), secilen_ad@),
        decreases sehirler.len() - i,
    {
        assert(g.skip(i as int).drop_first() =~= g.skip(i + 1));
        assert(g.skip(i as int)[0] == sehirler@[i as int]@);
        if metin_esit(sehirler[i].ad.as_str(), secilen_ad) {
            return sehirler[i].slug.clone();
        }
        i = i + 1;
    }
    String::new()
}

/// Why the fuel prices could not be shown.
pub enum BenzinHatasi {
    /// The list page gave no city.
    SehirListesiBos,
}

// ── Prices ──────────────────────────────────────────────────────────────────

/// The trimmed texts of the cells of a row.
pub open spec fn hucre_metinleri(satir: Seq<Seq<Seq<char>>>) -> Seq<Seq<char>> {
    satir.map_values(|h: Seq<Seq<char>>| kirpilmis(ard_arda(h)))
}

/// The rows with at least four cells, read as prices.
pub open spec fn fiyat_satirlari(satirlar: Seq<Seq<Seq<Seq<char>>>>) -> Seq<FiyatV>
    decreases satirlar.len(),
{
    if satirlar.len() == 0 {
        Seq::empty()
    } else {
        let onceki = fiyat_satirlari(satirlar.drop_last());
        let c = hucre_metinleri(satirlar.last());
        if c.len() >= 4 {
            onceki.push(FiyatV { dagitici: c[0], benzin: c[1], motorin: c[2], lpg: c[3] })
        } else {
            onceki
        }
    }
}

/// The price row that a table row with at least four cells gives: its first
/// four cells, each the trimmed concatenation of its text nodes.
pub open spec fn satir_fiyati(satir: Seq<Seq<Seq<char>>>) -> FiyatV {
    FiyatV {
        dagitici: kirpilmis(ard_arda(satir[0])),
        benzin: kirpilmis(ard_arda(satir[1])),
        motorin: kirpilmis(ard_arda(satir[2])),
        lpg: kirpilmis(ard_arda(satir[3])),
    }
}

/// A table row that gives a price row: one with at least four cells.
pub open spec fn fiyat_satiri_mi(satir: Seq<Seq<Seq<char>>>) -> bool {
    satir.len() >= 4
}

/// The price table, row by row: every row with at least four cells gives
/// exactly one price row, in table order, whatever came before it; the other
/// rows give nothing. So the prices are the rows with four or more cells,
/// each read from its first four cells, and there are as many of them as
/// there are such rows.
pub proof fn fiyat_tablosu_kurali(satirlar: Seq<Seq<Seq<Seq<char>>>>)
    ensures
        fiyat_satirlari(satirlar) == satirlar.filter(|r: Seq<Seq<Seq<char>>>| fiyat_satiri_mi(r)).map_values(
            |r: Seq<Seq<Seq<char>>>| satir_fiyati(r),
        ),
        fiyat_satirlari(satirlar).len() == satirlar.filter(
            |r: Seq<Seq<Seq<char>>>| fiyat_satiri_mi(r),
        ).len(),
    decreases satirlar.len(),
{
    reveal(Seq::filter);
    let p = |r: Seq<Seq<Seq<char>>>| fiyat_satiri_mi(r);
    let f = |r: Seq<Seq<Seq<char>>>| satir_fiyati(r);
    if satirlar.len() > 0 {
        let t = satirlar.drop_last();
        let x = satirlar.last();
        fiyat_tablosu_kurali(t);
        let c = hucre_metinleri(x);
        assert(c.len() == x.len());
        if x.len() >= 4 {
            assert(c[0] == kirpilmis(ard_arda(x[0])));
            assert(c[1] == kirpilmis(ard_arda(x[1])));
            assert(c[2] == kirpilmis(ard_arda(x[2])));
            assert(c[3] == kirpilmis(ard_arda(x[3])));
            assert(satirlar.filter(p) == t.filter(p).push(x));
            assert(t.filter(p).push(x).map_values(f) =~= t.filter(p).map_values(f).push(f(x)));
        } else {
            assert(satirlar.filter(p) == t.filter(p));
        }
    } else {
        assert(satirlar.filter(p).map_values(f) =~= Seq::<FiyatV>::empty());
    }
}

/// Reading one more row: a row with at least four cells appends exactly its
/// price row to what the earlier rows gave, however many rows came before;
/// any other row leaves the prices as they were.
pub proof fn fiyat_satiri_ekleme(satirlar: Seq<Seq<Seq<Seq<char>>>>, satir: Seq<Seq<Seq<char>>>)
    ensures
        satir.len() >= 4 ==> fiyat_satirlari(satirlar.push(satir)) == fiyat_satirlari(
            satirlar,
        ).push(satir_fiyati(satir)),
        satir.len() < 4 ==> fiyat_satirlari(satirlar.push(satir)) == fiyat_satirlari(satirlar),
        fiyat_satirlari(Seq::<Seq<Seq<Seq<char>>>>::empty()).len() == 0,
{
    let s2 = satirlar.push(satir);
    assert(s2.drop_last() =~= satirlar);
    fiyat_tablosu_kurali(satirlar);
    fiyat_tablosu_kurali(s2);
    reveal(Seq::filter);
    let p = |r: Seq<Seq<Seq<char>>>| fiyat_satiri_mi(r);
    let f = |r: Seq<Seq<Seq<char>>>| satir_fiyati(r);
    if satir.len() >= 4 {
        assert(s2.filter(p) == satirlar.filter(p).push(satir));
        assert(satirlar.filter(p).push(satir).map_values(f) =~= satirlar.filter(p).map_values(f).push(
            f(satir),
        ));
    } else {
        assert(s2.filter(p) == satirlar.filter(p));
    }
}

/// The price rows of a table given as rows of cells of text nodes: each row
/// with at least four cells gives distributor, petrol, diesel and LPG from
/// its first four cells, trimmed.
pub fn benzin_fiyatlarini_cikar(satirlar: &Vec<Vec<Vec<String>>>) -> (r: Vec<BenzinFiyati>)
    ensures
        fiyat_gorunumleri(r@) == fiyat_satirlari(satirlar.deep_view()),
{
    let mut r: Vec<BenzinFiyati> = Vec::new();
    let ghost d = satirlar.deep_view();
    let mut i: usize = 0;
    while i < satirlar.len()
        invariant
            i <= satirlar@.len(),
            d == satirlar.deep_view(),
            fiyat_gorunumleri(r@) == fiyat_satirlari(d.take(i as int)),
        decreases satirlar.len() - i,
    {
        let satir = &satirlar[i];
        let mut hucreler: Vec<String> = Vec::new();
        let mut j: usize = 0;
        while j < satir.len()
            invariant
                j <= satir@.len(),
                hucreler@.len() == j,
                forall|k: int|
                    0 <= k < j ==> (#[trigger] hucreler@[k])@ == kirpilmis(
                        ard_arda(satir.deep_view()[k]),
                    ),
            decreases satir.len() - j,
        {
            let m = birlestir(&satir[j]);
            assert(gorunumler(satir@[j as int]@) =~= satir.deep_view()[j as int]);
            hucreler.push(kirp(m.as_str()));
            j = j + 1;
        }
        proof {
            assert(gorunumler(hucreler@) =~= hucre_metinleri(satir.deep_view()));
            assert(d.take(i + 1).drop_last() =~= d.take(i as int));
            assert(d.take(i + 1).last() == satir.deep_view());
        }
        let ghost eski = fiyat_gorunumleri(r@);
        if hucreler.len() >= 4 {
            r.push(
                BenzinFiyati {
                    dagitici: hucreler[0].clone(),
                    benzin: hucreler[1].clone(),
                    motorin: hucreler[2].clone(),
                    lpg: hucreler[3].clone(),
                },
            );
            assert(fiyat_gorunumleri(r@) =~= eski.push(r@[r@.len() - 1]@));
        }
        i = i + 1;
    }
    assert(d.take(i as int) =~= d);
    r
}

/// The prices on the page `html` of a city: the rows of `table tbody tr` and
/// their `td` cells.
pub fn benzin_fiyatlari(html: &str) -> (r: Vec<BenzinFiyati>)
    ensures
        match html_hucre_secimi(html@, "table tbody tr"@, "td"@) {
            Some(satirlar) => fiyat_gorunumleri(r@) == fiyat_satirlari(satirlar),
            None => r@.len() == 0,
        },
{
    match hucreleri_sec(html, "table tbody tr", "td") {
        Some(satirlar) => benzin_fiyatlarini_cikar(&satirlar),
        None => Vec::new(),
    }
}

} // verus!
