//! A map from strings to strings kept in key order, as a `BTreeMap<String, String>`
//! keeps it: later values for a key replace earlier ones, and the entries are
//! walked in increasing key order.
use vstd::prelude::*;

use crate::metin::{karakterler, metin_esit};

verus! {

/// `a` comes before `b`: it is a proper prefix of `b`, or at the first
/// position where they differ its character has the smaller code point.
/// This is the order of `str`'s `Ord`, since UTF-8 keeps code point order.
pub open spec fn once_gelir(a: Seq<char>, b: Seq<char>) -> bool {
    ||| (a.len() < b.len() && a == b.take(a.len() as int))
    ||| exists|i: int|
        0 <= i < a.len() && i < b.len() && a.take(i) == b.take(i) && (a[i] as u32) < (
        #[trigger] b[i] as u32)
}

/// No string comes before itself.
pub proof fn once_gelir_yansimasiz(a: Seq<char>)
    ensures
        !once_gelir(a, a),
{
}

proof fn lemma_take_esit(a: Seq<char>, b: Seq<char>, i: int, j: int)
    requires
        0 <= j <= i <= a.len(),
        i <= b.len(),
        a.take(i) == b.take(i),
    ensures
        a.take(j) == b.take(j),
        forall|k: int| 0 <= k < i ==> a[k] == b[k],
{
    assert forall|k: int| 0 <= k < i implies a[k] == b[k] by {
        assert(a.take(i)[k] == a[k]);
        assert(b.take(i)[k] == b[k]);
    }
    assert(a.take(j) =~= b.take(j));
}

/// The order is transitive.
pub proof fn once_gelir_gecisli(a: Seq<char>, b: Seq<char>, c: Seq<char>)
    requires
        once_gelir(a, b),
        once_gelir(b, c),
    ensures
        once_gelir(a, c),
{
    let ab_on = a.len() < b.len() && a == b.take(a.len() as int);
    let bc_on = b.len() < c.len() && b == c.take(b.len() as int);
    if ab_on && bc_on {
        assert(a =~= c.take(a.len() as int));
    } else if ab_on {
        let j = choose|j: int|
            0 <= j < b.len() && j < c.len() && b.take(j) == c.take(j) && (b[j] as u32) < (
            #[trigger] c[j] as u32);
        if j < a.len() {
            lemma_take_esit(b, c, j, j);
            assert(a.take(j) =~= b.take(j));
            assert(a[j] == b[j]);
            assert(0 <= j < a.len() && j < c.len() && a.take(j) == c.take(j) && (a[j] as u32) < (
            c[j] as u32));
        } else {
            lemma_take_esit(b, c, j, a.len() as int);
            assert(a =~= b.take(a.len() as int));
            assert(a =~= c.take(a.len() as int));
        }
    } else if bc_on {
        let i = choose|i: int|
            0 <= i < a.len() && i < b.len() && a.take(i) == b.take(i) && (a[i] as u32) < (
            #[trigger] b[i] as u32);
        assert(b[i] == c[i]);
        assert(b.take(i) =~= c.take(i));
        assert(0 <= i < a.len() && i < c.len() && a.take(i) == c.take(i) && (a[i] as u32) < (
        c[i] as u32));
    } else {
        let i = choose|i: int|
            0 <= i < a.len() && i < b.len() && a.take(i) == b.take(i) && (a[i] as u32) < (
            #[trigger] b[i] as u32);
        let j = choose|j: int|
            0 <= j < b.len() && j < c.len() && b.take(j) == c.take(j) && (b[j] as u32) < (
            #[trigger] c[j] as u32);
        if i < j {
            lemma_take_esit(b, c, j, i);
            assert(a.take(i) == c.take(i));
            assert(0 <= i < a.len() && i < c.len() && a.take(i) == c.take(i) && (a[i] as u32) < (
            c[i] as u32));
        } else if j < i {
            lemma_take_esit(a, b, i, j);
            assert(a.take(j) == c.take(j));
            assert(0 <= j < a.len() && j < c.len() && a.take(j) == c.take(j) && (a[j] as u32) < (
            c[j] as u32));
        } else {
            assert(0 <= i < a.len() && i < c.len() && a.take(i) == c.take(i) && (a[i] as u32) < (
            c[i] as u32));
        }
    }
}

/// Any two different strings are ordered one way or the other.
pub proof fn once_gelir_toplam(a: Seq<char>, b: Seq<char>)
    ensures
        a == b || once_gelir(a, b) || once_gelir(b, a),
{
    let m = if a.len() < b.len() {
        a.len() as int
    } else {
        b.len() as int
    };
    assert(a.take(0) =~= b.take(0));
    lemma_ilk_fark(a, b, 0, m);
    if a.take(m) == b.take(m) {
        if a.len() == b.len() {
            assert(a =~= a.take(m));
            assert(b =~= b.take(m));
        } else if a.len() < b.len() {
            assert(a =~= a.take(m));
        } else {
            assert(b =~= b.take(m));
        }
    } else {
        let j = choose|j: int| 0 <= j < m && a.take(j) == b.take(j) && #[trigger] a[j] != b[j];
        vstd::utf8::char_u32_cast(a[j], a[j] as u32);
        vstd::utf8::char_u32_cast(b[j], b[j] as u32);
        if (a[j] as u32) < (b[j] as u32) {
            assert(0 <= j < a.len() && j < b.len() && a.take(j) == b.take(j) && (a[j] as u32) < (
            b[j] as u32));
        } else {
            assert((b[j] as u32) < (a[j] as u32));
            assert(b.take(j) == a.take(j));
            assert(0 <= j < b.len() && j < a.len() && b.take(j) == a.take(j) && (b[j] as u32) < (
            a[j] as u32));
        }
    }
}

proof fn lemma_ilk_fark(a: Seq<char>, b: Seq<char>, i: int, m: int)
    requires
        0 <= i <= m,
        m <= a.len(),
        m <= b.len(),
        a.take(i) == b.take(i),
    ensures
        a.take(m) == b.take(m) || exists|j: int|
            0 <= j < m && a.take(j) == b.take(j) && #[trigger] a[j] != b[j],
    decreases m - i,
{
    if i < m {
        if a[i] != b[i] {
            assert(0 <= i < m && a.take(i) == b.take(i) && a[i] != b[i]);
        } else {
            assert(a.take(i + 1) =~= a.take(i).push(a[i]));
            assert(b.take(i + 1) =~= b.take(i).push(b[i]));
            lemma_ilk_fark(a, b, i + 1, m);
        }
    }
}

/// Whether `a` comes before `b`.
pub fn once_mi(a: &str, b: &str) -> (r: bool)
    ensures
        r == once_gelir(a@, b@),
{
    let x = karakterler(a);
    let y = karakterler(b);
    let m = if x.len() < y.len() {
        x.len()
    } else {
        y.len()
    };
    let mut i: usize = 0;
    while i < m && x[i] == y[i]
        invariant
            i <= m <= x@.len(),
            m <= y@.len(),
            m == x@.len() || m == y@.len(),
            x@ == a@,
            y@ == b@,
            x@.take(i as int) == y@.take(i as int),
        decreases m - i,
    {
        assert(x@.take(i + 1) =~= x@.take(i as int).push(x@[i as int]));
        assert(y@.take(i + 1) =~= y@.take(i as int).push(y@[i as int]));
        i = i + 1;
    }
    if i < m {
        let r = (x[i] as u32) < (y[i] as u32);
        proof {
            if r {
                assert(0 <= i < x@.len() && i < y@.len() && x@.take(i as int) == y@.take(i as int)
                    && (x@[i as int] as u32) < (y@[i as int] as u32));
            } else {
                if x@.len() < y@.len() && x@ == y@.take(x@.len() as int) {
                    assert(x@[i as int] == y@.take(x@.len() as int)[i as int]);
                }
                assert forall|j: int|
                    0 <= j < x@.len() && j < y@.len() && x@.take(j) == y@.take(j) implies !((x@[j]
                    as u32) < (#[trigger] y@[j] as u32)) by {
                    if j < i {
                        lemma_take_esit(x@, y@, i as int, i as int);
                    } else if j > i {
                        lemma_take_esit(x@, y@, j, j);
                    }
                }
            }
        }
        r
    } else {
        let r = x.len() < y.len();
        proof {
            if r {
                assert(x@ =~= x@.take(i as int));
            } else {
                assert forall|j: int|
                    0 <= j < x@.len() && j < y@.len() && x@.take(j) == y@.take(j) implies !((x@[j]
                    as u32) < (#[trigger] y@[j] as u32)) by {
                    lemma_take_esit(x@, y@, i as int, i as int);
                }
            }
        }
        r
    }
}

/// The keys of the entries come in strictly increasing order.
pub open spec fn sirali(ps: Seq<(Seq<char>, Seq<char>)>) -> bool {
    forall|i: int, j: int| 0 <= i < j < ps.len() ==> once_gelir(#[trigger] ps[i].0, #[trigger] ps[j].0)
}

/// The map that a list of entries with distinct keys stands for.
pub open spec fn harita(ps: Seq<(Seq<char>, Seq<char>)>) -> Map<Seq<char>, Seq<char>> {
    Map::new(
        |k: Seq<char>| exists|i: int| 0 <= i < ps.len() && #[trigger] ps[i].0 == k,
        |k: Seq<char>| ps[choose|i: int| 0 <= i < ps.len() && #[trigger] ps[i].0 == k].1,
    )
}

/// String keys and values, in increasing key order.
pub struct SiraliSozluk {
    ogeler: Vec<(String, String)>,
}

impl SiraliSozluk {
    /// The entries, in key order.
    pub closed spec fn ciftler(&self) -> Seq<(Seq<char>, Seq<char>)> {
        self.ogeler@.map_values(|p: (String, String)| (p.0@, p.1@))
    }

    #[verifier::type_invariant]
    spec fn duzgun(&self) -> bool {
        sirali(self.ciftler())
    }

    /// The empty map.
    pub fn new() -> (r: Self)
        ensures
            r.ciftler().len() == 0,
            r@ == Map::<Seq<char>, Seq<char>>::empty(),
    {
        let r = SiraliSozluk { ogeler: Vec::new() };
        assert(r.ciftler() =~= Seq::empty());
        assert(r@ =~= Map::<Seq<char>, Seq<char>>::empty());
        r
    }

    /// The entries in increasing key order.
    pub fn ogeler(&self) -> (r: &Vec<(String, String)>)
        ensures
            r@.map_values(|p: (String, String)| (p.0@, p.1@)) == self.ciftler(),
            sirali(self.ciftler()),
    {
        proof {
            use_type_invariant(self);
        }
        &self.ogeler
    }

    /// The number of entries.
    pub fn len(&self) -> (r: usize)
        ensures
            r == self.ciftler().len(),
    {
        self.ogeler.len()
    }

    /// Whether there is no entry.
    pub fn is_empty(&self) -> (r: bool)
        ensures
            r == (self.ciftler().len() == 0),
            r == (self@.dom().len() == 0),
    {
        proof {
            use_type_invariant(self);
            if self.ciftler().len() > 0 {
                assert(self@.dom().contains(self.ciftler()[0].0));
                lemma_harita_sonlu(self.ciftler());
            } else {
                assert(self@.dom() =~= Set::empty());
            }
        }
        self.ogeler.len() == 0
    }

    /// Sets the value of `k` to `v`, replacing any value it had.
    pub fn insert(&mut self, k: String, v: String)
        ensures
            final(self)@ == old(self)@.insert(k@, v@),
    {
        proof {
            use_type_invariant(&*self);
        }
        let ghost eski = self.ciftler();
        let n = self.ogeler.len();
        let mut i: usize = 0;
        while i < n && once_mi(self.ogeler[i].0.as_str(), k.as_str())
            invariant
                i <= n == eski.len(),
                eski == self.ciftler(),
                forall|j: int| 0 <= j < i ==> once_gelir(#[trigger] eski[j].0, k@),
            decreases n - i,
        {
            i = i + 1;
        }
        let ghost kv = (k@, v@);
        if i < n && metin_esit(self.ogeler[i].0.as_str(), k.as_str()) {
            let mut ogeler: Vec<(String, String)> = Vec::new();
            std::mem::swap(&mut ogeler, &mut self.ogeler);
            ogeler.set(i, (k, v));
            let ghost yeni = ogeler@.map_values(|p: (String, String)| (p.0@, p.1@));
            assert(yeni =~= eski.update(i as int, kv));
            proof {
                assert forall|a: int, b: int| 0 <= a < b < yeni.len() implies once_gelir(
                    #[trigger] yeni[a].0,
                    #[trigger] yeni[b].0,
                ) by {
                    assert(yeni[a].0 == eski[a].0);
                    assert(yeni[b].0 == eski[b].0);
                }
                lemma_harita_guncelle(eski, i as int, kv);
            }
            self.ogeler = ogeler;
        } else {
            proof {
                if i < n {
                    once_gelir_toplam(eski[i as int].0, k@);
                    assert forall|j: int| i <= j < n implies once_gelir(k@, #[trigger] eski[j].0) by {
                        if j > i {
                            once_gelir_gecisli(k@, eski[i as int].0, eski[j].0);
                        }
                    }
                }
            }
            let mut ogeler: Vec<(String, String)> = Vec::new();
            std::mem::swap(&mut ogeler, &mut self.ogeler);
            ogeler.insert(i, (k, v));
            let ghost yeni = ogeler@.map_values(|p: (String, String)| (p.0@, p.1@));
            assert(yeni =~= eski.insert(i as int, kv));
            proof {
                assert forall|a: int, b: int| 0 <= a < b < yeni.len() implies once_gelir(
                    #[trigger] yeni[a].0,
                    #[trigger] yeni[b].0,
                ) by {
                    if b < i {
                    } else if a == i {
                    } else if b == i {
                    } else if a < i {
                        assert(yeni[b] == eski[b - 1]);
                        once_gelir_gecisli(yeni[a].0, k@, yeni[b].0);
                    } else {
                        assert(yeni[a] == eski[a - 1]);
                        assert(yeni[b] == eski[b - 1]);
                    }
                }
                lemma_harita_ekle(eski, i as int, kv);
            }
            self.ogeler = ogeler;
        }
    }
}

impl View for SiraliSozluk {
    type V = Map<Seq<char>, Seq<char>>;

    open spec fn view(&self) -> Map<Seq<char>, Seq<char>> {
        harita(self.ciftler())
    }
}

proof fn lemma_sirali_tekil(ps: Seq<(Seq<char>, Seq<char>)>, i: int, j: int)
    requires
        sirali(ps),
        0 <= i < ps.len(),
        0 <= j < ps.len(),
        ps[i].0 == ps[j].0,
    ensures
        i == j,
{
    if i < j {
        assert(once_gelir(ps[i].0, ps[j].0));
    } else if j < i {
        assert(once_gelir(ps[j].0, ps[i].0));
    }
}

proof fn lemma_harita_deger(ps: Seq<(Seq<char>, Seq<char>)>, i: int)
    requires
        sirali(ps),
        0 <= i < ps.len(),
    ensures
        harita(ps).dom().contains(ps[i].0),
        harita(ps)[ps[i].0] == ps[i].1,
{
    let k = ps[i].0;
    assert(harita(ps).dom().contains(k));
    let c = choose|c: int| 0 <= c < ps.len() && #[trigger] ps[c].0 == k;
    lemma_sirali_tekil(ps, c, i);
}

proof fn lemma_harita_sonlu(ps: Seq<(Seq<char>, Seq<char>)>)
    requires
        ps.len() > 0,
    ensures
        harita(ps).dom().finite(),
        harita(ps).dom().len() > 0,
{
    let d = harita(ps).dom();
    let ks = ps.map_values(|p: (Seq<char>, Seq<char>)| p.0);
    let anahtarlar = ks.to_set();
    assert forall|k: Seq<char>| d.contains(k) implies anahtarlar.contains(k) by {
        let c = choose|c: int| 0 <= c < ps.len() && #[trigger] ps[c].0 == k;
        assert(ks[c] == k);
    }
    assert forall|k: Seq<char>| anahtarlar.contains(k) implies d.contains(k) by {
        let c = choose|c: int| 0 <= c < ks.len() && #[trigger] ks[c] == k;
        assert(ps[c].0 == k);
    }
    assert(d =~= anahtarlar);
    vstd::seq_lib::seq_to_set_is_finite(ks);
    assert(d.contains(ps[0].0));
    vstd::set_lib::lemma_set_empty_equivalency_len(d);
}

proof fn lemma_harita_guncelle(
    ps: Seq<(Seq<char>, Seq<char>)>,
    i: int,
    kv: (Seq<char>, Seq<char>),
)
    requires
        sirali(ps),
        0 <= i < ps.len(),
        ps[i].0 == kv.0,
    ensures
        harita(ps.update(i, kv)) == harita(ps).insert(kv.0, kv.1),
{
    let qs = ps.update(i, kv);
    assert(sirali(qs)) by {
        assert forall|a: int, b: int| 0 <= a < b < qs.len() implies once_gelir(
            #[trigger] qs[a].0,
            #[trigger] qs[b].0,
        ) by {
            assert(qs[a].0 == ps[a].0);
            assert(qs[b].0 == ps[b].0);
        }
    }
    assert forall|k: Seq<char>|
        harita(qs).dom().contains(k) <==> harita(ps).insert(kv.0, kv.1).dom().contains(k) by {
        if harita(qs).dom().contains(k) {
            let c = choose|c: int| 0 <= c < qs.len() && #[trigger] qs[c].0 == k;
            assert(ps[c].0 == k);
        }
        if harita(ps).dom().contains(k) {
            let c = choose|c: int| 0 <= c < ps.len() && #[trigger] ps[c].0 == k;
            assert(qs[c].0 == k);
        }
        if k == kv.0 {
            assert(qs[i].0 == k);
        }
    }
    assert forall|k: Seq<char>| #[trigger]
        harita(qs).dom().contains(k) implies harita(qs)[k] == harita(ps).insert(kv.0, kv.1)[k] by {
        let c = choose|c: int| 0 <= c < qs.len() && #[trigger] qs[c].0 == k;
        lemma_harita_deger(qs, c);
        if c != i {
            assert(ps[c].0 == k);
            lemma_harita_deger(ps, c);
            if k == kv.0 {
                lemma_sirali_tekil(qs, c, i);
            }
        }
    }
    assert(harita(qs) =~= harita(ps).insert(kv.0, kv.1));
}

proof fn lemma_harita_ekle(ps: Seq<(Seq<char>, Seq<char>)>, i: int, kv: (Seq<char>, Seq<char>))
    requires
        sirali(ps),
        sirali(ps.insert(i, kv)),
        0 <= i <= ps.len(),
    ensures
        harita(ps.insert(i, kv)) == harita(ps).insert(kv.0, kv.1),
{
    let qs = ps.insert(i, kv);
    assert forall|k: Seq<char>|
        harita(qs).dom().contains(k) <==> harita(ps).insert(kv.0, kv.1).dom().contains(k) by {
        if harita(qs).dom().contains(k) {
            let c = choose|c: int| 0 <= c < qs.len() && #[trigger] qs[c].0 == k;
            if c < i {
                assert(ps[c].0 == k);
            } else if c > i {
                assert(ps[c - 1].0 == k);
            }
        }
        if harita(ps).dom().contains(k) {
            let c = choose|c: int| 0 <= c < ps.len() && #[trigger] ps[c].0 == k;
            if c < i {
                assert(qs[c].0 == k);
            } else {
                assert(qs[c + 1].0 == k);
            }
        }
        if k == kv.0 {
            assert(qs[i].0 == k);
        }
    }
    assert forall|k: Seq<char>| #[trigger]
        harita(qs).dom().contains(k) implies harita(qs)[k] == harita(ps).insert(kv.0, kv.1)[k] by {
        let c = choose|c: int| 0 <= c < qs.len() && #[trigger] qs[c].0 == k;
        lemma_harita_deger(qs, c);
        if c != i {
            let d = if c < i {
                c
            } else {
                c - 1
            };
            assert(ps[d] == qs[c]);
            lemma_harita_deger(ps, d);
            if k == kv.0 {
                lemma_sirali_tekil(qs, c, i);
            }
        } else {
            assert(qs[i] == kv);
        }
    }
    assert(harita(qs) =~= harita(ps).insert(kv.0, kv.1));
}

} // verus!
