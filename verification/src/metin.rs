//! Text helpers shared by the rest of the library: trimming, prefix and
//! ASCII case-insensitive comparison, joining, and cutting a schema URL down
//! to its last path segment.
use vstd::prelude::*;

verus! {

/// `String::push` appends one character to the end of the string.
pub assume_specification[ String::push ](s: &mut String, ch: char)
    ensures
        final(s)@ == old(s)@.push(ch),
;

// ── Characters ──────────────────────────────────────────────────────────────

/// Unicode `White_Space`, the set that `char::is_whitespace` and `str::trim` use.
pub open spec fn bosluk_mu(c: char) -> bool {
    let n = c as u32;
    ||| n == 0x20
    ||| 0x09 <= n <= 0x0d
    ||| n == 0x85
    ||| n == 0xa0
    ||| n == 0x1680
    ||| 0x2000 <= n <= 0x200a
    ||| n == 0x2028
    ||| n == 0x2029
    ||| n == 0x202f
    ||| n == 0x205f
    ||| n == 0x3000
}

/// Whether `c` is Unicode white space.
pub fn bosluk(c: char) -> (r: bool)
    ensures
        r == bosluk_mu(c),
{
    let n = c as u32;
    n == 0x20 || (0x09 <= n && n <= 0x0d) || n == 0x85 || n == 0xa0 || n == 0x1680 || (0x2000
        <= n && n <= 0x200a) || n == 0x2028 || n == 0x2029 || n == 0x202f || n == 0x205f || n
        == 0x3000
}

/// The character that a trim removes: white space, or `/` when `egik` holds.
pub open spec fn kenar_mi(c: char, egik: bool) -> bool {
    if egik {
        c == '/'
    } else {
        bosluk_mu(c)
    }
}

fn kenar(c: char, egik: bool) -> (r: bool)
    ensures
        r == kenar_mi(c, egik),
{
    if egik {
        c == '/'
    } else {
        bosluk(c)
    }
}

/// `s` without its leading trimmed characters.
pub open spec fn bastan_at(s: Seq<char>, egik: bool) -> Seq<char>
    decreases s.len(),
{
    if s.len() > 0 && kenar_mi(s[0], egik) {
        bastan_at(s.drop_first(), egik)
    } else {
        s
    }
}

/// `s` without its trailing trimmed characters.
pub open spec fn sondan_at(s: Seq<char>, egik: bool) -> Seq<char>
    decreases s.len(),
{
    if s.len() > 0 && kenar_mi(s.last(), egik) {
        sondan_at(s.drop_last(), egik)
    } else {
        s
    }
}

/// `str::trim`: leading and trailing white space removed.
pub open spec fn kirpilmis(s: Seq<char>) -> Seq<char> {
    sondan_at(bastan_at(s, false), false)
}

/// `str::trim_matches('/')`: leading and trailing slashes removed.
pub open spec fn egik_kirpilmis(s: Seq<char>) -> Seq<char> {
    sondan_at(bastan_at(s, true), true)
}

proof fn lemma_bastan_at(s: Seq<char>, egik: bool, k: int)
    requires
        0 <= k <= s.len(),
        forall|i: int| 0 <= i < k ==> kenar_mi(#[trigger] s[i], egik),
        k == s.len() || !kenar_mi(s[k], egik),
    ensures
        bastan_at(s, egik) == s.skip(k),
    decreases k,
{
    if k == 0 {
        assert(s.skip(0) =~= s);
    } else {
        let t = s.drop_first();
        assert forall|i: int| 0 <= i < k - 1 implies kenar_mi(#[trigger] t[i], egik) by {
            assert(t[i] == s[i + 1]);
        }
        if k - 1 < t.len() {
            assert(t[k - 1] == s[k]);
        }
        lemma_bastan_at(t, egik, k - 1);
        assert(t.skip(k - 1) =~= s.skip(k));
    }
}

proof fn lemma_sondan_at(s: Seq<char>, egik: bool, k: int)
    requires
        0 <= k <= s.len(),
        forall|i: int| k <= i < s.len() ==> kenar_mi(#[trigger] s[i], egik),
        k == 0 || !kenar_mi(s[k - 1], egik),
    ensures
        sondan_at(s, egik) == s.take(k),
    decreases s.len() - k,
{
    if k == s.len() {
        assert(s.take(k) =~= s);
    } else {
        let t = s.drop_last();
        assert forall|i: int| k <= i < t.len() implies kenar_mi(#[trigger] t[i], egik) by {
            assert(t[i] == s[i]);
        }
        if k > 0 {
            assert(t[k - 1] == s[k - 1]);
        }
        lemma_sondan_at(t, egik, k);
        assert(t.take(k) =~= s.take(k));
    }
}

/// The characters of `s`, in order.
pub fn karakterler(s: &str) -> (v: Vec<char>)
    ensures
        v@ == s@,
{
    let mut v: Vec<char> = Vec::new();
    for c in it: s.chars()
        invariant
            v@ == it.seq().take(it.index() as int),
    {
        v.push(c);
    }
    v
}

/// A new string made of `cs[bas..son]`.
pub fn aralik_metni(cs: &Vec<char>, bas: usize, son: usize) -> (r: String)
    requires
        bas <= son <= cs.len(),
    ensures
        r@ == cs@.subrange(bas as int, son as int),
{
    let mut r = String::new();
    let mut i = bas;
    while i < son
        invariant
            bas <= i <= son <= cs.len(),
            r@ == cs@.subrange(bas as int, i as int),
        decreases son - i,
    {
        r.push(cs[i]);
        i = i + 1;
        assert(r@ =~= cs@.subrange(bas as int, i as int));
    }
    r
}

fn kenarlari_kirp(s: &str, egik: bool) -> (r: String)
    ensures
        r@ == sondan_at(bastan_at(s@, egik), egik),
{
    let cs = karakterler(s);
    let n = cs.len();
    let mut b: usize = 0;
    while b < n && kenar(cs[b], egik)
        invariant
            b <= n == cs@.len(),
            forall|i: int| 0 <= i < b ==> kenar_mi(#[trigger] cs@[i], egik),
        decreases n - b,
    {
        b = b + 1;
    }
    let mut e: usize = n;
    while e > b && kenar(cs[e - 1], egik)
        invariant
            b <= e <= n == cs@.len(),
            forall|i: int| e <= i < n ==> kenar_mi(#[trigger] cs@[i], egik),
        decreases e - b,
    {
        e = e - 1;
    }
    proof {
        lemma_bastan_at(cs@, egik, b as int);
        let t = cs@.skip(b as int);
        assert forall|i: int| (e - b) <= i < t.len() implies kenar_mi(#[trigger] t[i], egik) by {
            assert(t[i] == cs@[i + b]);
        }
        if e > b {
            assert(t[e - b - 1] == cs@[e - 1]);
        }
        lemma_sondan_at(t, egik, e - b);
        assert(t.take(e - b) =~= cs@.subrange(b as int, e as int));
    }
    aralik_metni(&cs, b, e)
}

/// `str::trim`: `s` without leading and trailing white space.
pub fn kirp(s: &str) -> (r: String)
    ensures
        r@ == kirpilmis(s@),
{
    kenarlari_kirp(s, false)
}

/// `str::trim_matches('/')`: `s` without leading and trailing slashes.
pub fn egikleri_kirp(s: &str) -> (r: String)
    ensures
        r@ == egik_kirpilmis(s@),
{
    kenarlari_kirp(s, true)
}

// ── Comparison ──────────────────────────────────────────────────────────────

/// Whether the two strings hold the same characters.
pub fn metin_esit(a: &str, b: &str) -> (r: bool)
    ensures
        r == (a@ == b@),
{
    let x = karakterler(a);
    let y = karakterler(b);
    if x.len() != y.len() {
        return false;
    }
    let mut i: usize = 0;
    while i < x.len()
        invariant
            i <= x.len() == y.len(),
            x@ == a@,
            y@ == b@,
            forall|j: int| 0 <= j < i ==> x@[j] == y@[j],
        decreases x.len() - i,
    {
        if x[i] != y[i] {
            return false;
        }
        i = i + 1;
    }
    assert(x@ =~= y@);
    true
}

/// Whether `s` begins with `on`.
pub fn ile_baslar(s: &str, on: &str) -> (r: bool)
    ensures
        r == on@.is_prefix_of(s@),
{
    let x = karakterler(s);
    let p = karakterler(on);
    if p.len() > x.len() {
        return false;
    }
    let mut i: usize = 0;
    while i < p.len()
        invariant
            i <= p.len() <= x.len(),
            x@ == s@,
            p@ == on@,
            forall|j: int| 0 <= j < i ==> p@[j] == x@[j],
        decreases p.len() - i,
    {
        if p[i] != x[i] {
            assert(p@ != x@.subrange(0, p@.len() as int));
            return false;
        }
        i = i + 1;
    }
    assert(p@ =~= x@.subrange(0, p@.len() as int));
    true
}

/// Whether the character `c` occurs in `s`.
pub fn karakter_icerir(s: &str, c: char) -> (r: bool)
    ensures
        r == s@.contains(c),
{
    let x = karakterler(s);
    let mut i: usize = 0;
    while i < x.len()
        invariant
            i <= x.len(),
            x@ == s@,
            forall|j: int| 0 <= j < i ==> x@[j] != c,
        decreases x.len() - i,
    {
        if x[i] == c {
            assert(s@[i as int] == c);
            return true;
        }
        i = i + 1;
    }
    false
}

/// `u8::to_ascii_lowercase`.
pub open spec fn ascii_kucuk(b: u8) -> u8 {
    if 65 <= b <= 90 {
        (b + 32) as u8
    } else {
        b
    }
}

/// `eq_ignore_ascii_case` on the UTF-8 bytes of two strings.
pub open spec fn ascii_harfsiz_esit_mi(x: Seq<u8>, y: Seq<u8>) -> bool {
    &&& x.len() == y.len()
    &&& forall|i: int| 0 <= i < x.len() ==> ascii_kucuk(#[trigger] x[i]) == ascii_kucuk(y[i])
}

/// `str::eq_ignore_ascii_case`: equal once ASCII letters are lowered.
pub fn ascii_harfsiz_esit(a: &str, b: &str) -> (r: bool)
    ensures
        r == ascii_harfsiz_esit_mi(vstd::utf8::encode_utf8(a@), vstd::utf8::encode_utf8(b@)),
{
    let x = a.as_bytes();
    let y = b.as_bytes();
    if x.len() != y.len() {
        return false;
    }
    let mut i: usize = 0;
    while i < x.len()
        invariant
            i <= x@.len() == y@.len(),
            x@ == vstd::utf8::encode_utf8(a@),
            y@ == vstd::utf8::encode_utf8(b@),
            forall|j: int| 0 <= j < i ==> ascii_kucuk(#[trigger] x@[j]) == ascii_kucuk(y@[j]),
        decreases x.len() - i,
    {
        let p = x[i];
        let q = y[i];
        let lp = if 65 <= p && p <= 90 {
            p + 32
        } else {
            p
        };
        let lq = if 65 <= q && q <= 90 {
            q + 32
        } else {
            q
        };
        if lp != lq {
            return false;
        }
        i = i + 1;
    }
    true
}

// ── Joining ─────────────────────────────────────────────────────────────────

/// The views of a list of strings.
pub open spec fn gorunumler(v: Seq<String>) -> Seq<Seq<char>> {
    v.map_values(|s: String| s@)
}

/// `parcalar` put one after another.
pub open spec fn ard_arda(parcalar: Seq<Seq<char>>) -> Seq<char>
    decreases parcalar.len(),
{
    if parcalar.len() == 0 {
        Seq::empty()
    } else {
        ard_arda(parcalar.drop_last()) + parcalar.last()
    }
}

/// `parcalar` joined with `ayrac` between each two of them (`join`).
pub open spec fn ayracla(parcalar: Seq<Seq<char>>, ayrac: Seq<char>) -> Seq<char>
    decreases parcalar.len(),
{
    if parcalar.len() == 0 {
        Seq::empty()
    } else if parcalar.len() == 1 {
        parcalar[0]
    } else {
        ayracla(parcalar.drop_last(), ayrac) + ayrac + parcalar.last()
    }
}

/// Joining: one part is itself, and one more part adds the separator and
/// that part at the end, however many parts came before.
pub proof fn ayracla_ekleme(parcalar: Seq<Seq<char>>, x: Seq<char>, ayrac: Seq<char>)
    ensures
        ayracla(seq![x], ayrac) == x,
        parcalar.len() > 0 ==> ayracla(parcalar.push(x), ayrac) == ayracla(parcalar, ayrac)
            + ayrac + x,
        ayracla(Seq::<Seq<char>>::empty(), ayrac).len() == 0,
{
    assert(parcalar.push(x).drop_last() =~= parcalar);
}

/// The strings of `parcalar` one after another (`collect::<String>()`).
pub fn birlestir(parcalar: &Vec<String>) -> (r: String)
    ensures
        r@ == ard_arda(gorunumler(parcalar@)),
{
    let mut r = String::new();
    let mut i: usize = 0;
    while i < parcalar.len()
        invariant
            i <= parcalar.len(),
            r@ == ard_arda(gorunumler(parcalar@).take(i as int)),
        decreases parcalar.len() - i,
    {
        proof {
            let g = gorunumler(parcalar@);
            assert(g.take(i + 1).drop_last() =~= g.take(i as int));
        }
        r.append(parcalar[i].as_str());
        i = i + 1;
    }
    assert(gorunumler(parcalar@).take(i as int) =~= gorunumler(parcalar@));
    r
}

/// `parcalar.join(ayrac)`.
pub fn ayracla_birlestir(parcalar: &Vec<String>, ayrac: &str) -> (r: String)
    ensures
        r@ == ayracla(gorunumler(parcalar@), ayrac@),
{
    let mut r = String::new();
    let mut i: usize = 0;
    while i < parcalar.len()
        invariant
            i <= parcalar.len(),
            r@ == ayracla(gorunumler(parcalar@).take(i as int), ayrac@),
        decreases parcalar.len() - i,
    {
        proof {
            let g = gorunumler(parcalar@);
            assert(g.take(i + 1).drop_last() =~= g.take(i as int));
        }
        if i > 0 {
            r.append(ayrac);
        }
        r.append(parcalar[i].as_str());
        i = i + 1;
    }
    assert(gorunumler(parcalar@).take(i as int) =~= gorunumler(parcalar@));
    r
}

// ── Schema URLs ─────────────────────────────────────────────────────────────

/// What follows the last `/` of `s`; all of `s` when it has none.
pub open spec fn son_parca(s: Seq<char>) -> Seq<char>
    decreases s.len(),
{
    if s.len() == 0 {
        s
    } else if s.last() == '/' {
        Seq::empty()
    } else {
        son_parca(s.drop_last()).push(s.last())
    }
}

proof fn lemma_son_parca(s: Seq<char>, k: int)
    requires
        0 <= k <= s.len(),
        forall|i: int| k <= i < s.len() ==> #[trigger] s[i] != '/',
        k == 0 || s[k - 1] == '/',
    ensures
        son_parca(s) == s.skip(k),
    decreases s.len() - k,
{
    if k == s.len() {
        if k > 0 {
            assert(son_parca(s) =~= s.skip(k));
        } else {
            assert(s.skip(k) =~= s);
        }
    } else {
        let t = s.drop_last();
        assert forall|i: int| k <= i < t.len() implies #[trigger] t[i] != '/' by {
            assert(t[i] == s[i]);
        }
        if k > 0 {
            assert(t[k - 1] == s[k - 1]);
        }
        lemma_son_parca(t, k);
        assert(t.skip(k).push(s.last()) =~= s.skip(k));
    }
}

/// The last `/`-separated segment of `value`, as `rsplit('/').next()` gives it:
/// `https://schema.org/InStock` becomes `InStock`.
pub fn shorten_schema_url(value: &str) -> (r: String)
    ensures
        r@ == son_parca(value@),
{
    let cs = karakterler(value);
    let mut k: usize = cs.len();
    while k > 0 && cs[k - 1] != '/'
        invariant
            k <= cs@.len(),
            cs@ == value@,
            forall|i: int| k <= i < cs@.len() ==> #[trigger] cs@[i] != '/',
        decreases k,
    {
        k = k - 1;
    }
    proof {
        lemma_son_parca(cs@, k as int);
        assert(cs@.skip(k as int) =~= cs@.subrange(k as int, cs@.len() as int));
    }
    aralik_metni(&cs, k, cs.len())
}

/// The last segment holds no `/` and ends the input: `rsplit` cuts at the
/// last slash, so the segment is all of the input or a `/` stands just
/// before it.
pub proof fn son_parca_egiksiz_sonek(s: Seq<char>)
    ensures
        !son_parca(s).contains('/'),
        son_parca(s).is_suffix_of(s),
        son_parca(s).len() == s.len() || s[s.len() - son_parca(s).len() - 1] == '/',
    decreases s.len(),
{
    if s.len() > 0 && s.last() != '/' {
        son_parca_egiksiz_sonek(s.drop_last());
        let t = son_parca(s.drop_last());
        assert(s.drop_last().subrange(s.drop_last().len() - t.len(), s.drop_last().len() as int)
            =~= t);
        assert(s.subrange(s.len() - (t.len() + 1), s.len() as int) =~= t.push(s.last()));
        assert forall|i: int| 0 <= i < t.len() + 1 implies t.push(s.last())[i] != '/' by {
            if i < t.len() {
                assert(!t.contains('/'));
                assert(t.push(s.last())[i] == t[i]);
            }
        }
    } else if s.len() > 0 {
        assert(son_parca(s) =~= Seq::<char>::empty());
        assert(s.subrange(s.len() as int, s.len() as int) =~= Seq::<char>::empty());
    }
}

proof fn lemma_bastan_at_sonuc(s: Seq<char>, egik: bool)
    ensures
        bastan_at(s, egik).len() == 0 || !kenar_mi(bastan_at(s, egik)[0], egik),
    decreases s.len(),
{
    if s.len() > 0 && kenar_mi(s[0], egik) {
        lemma_bastan_at_sonuc(s.drop_first(), egik);
    }
}

proof fn lemma_sondan_at_sonuc(s: Seq<char>, egik: bool)
    ensures
        sondan_at(s, egik).len() == 0 || !kenar_mi(sondan_at(s, egik).last(), egik),
        sondan_at(s, egik).is_prefix_of(s),
    decreases s.len(),
{
    if s.len() > 0 && kenar_mi(s.last(), egik) {
        lemma_sondan_at_sonuc(s.drop_last(), egik);
        let t = sondan_at(s.drop_last(), egik);
        assert(t =~= s.subrange(0, t.len() as int));
    } else {
        assert(s =~= s.subrange(0, s.len() as int));
    }
}

/// A trimmed string neither begins nor ends with white space, and trimming
/// it again changes nothing.
pub proof fn kirpilmis_kenarsiz(s: Seq<char>)
    ensures
        kirpilmis(s).len() > 0 ==> !bosluk_mu(kirpilmis(s)[0]) && !bosluk_mu(kirpilmis(s).last()),
        kirpilmis(kirpilmis(s)) == kirpilmis(s),
{
    let t = bastan_at(s, false);
    lemma_bastan_at_sonuc(s, false);
    lemma_sondan_at_sonuc(t, false);
    let u = kirpilmis(s);
    if u.len() > 0 {
        assert(u[0] == t[0]);
        assert(bastan_at(u, false) == u);
        assert(sondan_at(u, false) == u);
    } else {
        assert(bastan_at(u, false) == u);
        assert(sondan_at(u, false) == u);
    }
}

/// `t` is `s` with its leading and trailing white space removed: a stretch
/// of `s` with only white space before and after it, which, when not empty,
/// begins and ends with a character that is not white space.
pub open spec fn kirpma_sonucu(s: Seq<char>, t: Seq<char>) -> bool {
    exists|a: int, b: int|
        0 <= a <= b <= s.len() && t == #[trigger] s.subrange(a, b) && (forall|k: int|
            0 <= k < a ==> bosluk_mu(#[trigger] s[k])) && (forall|k: int|
            b <= k < s.len() ==> bosluk_mu(#[trigger] s[k])) && (a < b ==> !bosluk_mu(s[a])
            && !bosluk_mu(s[b - 1]))
}

proof fn bastan_sinir(s: Seq<char>, egik: bool) -> (k: int)
    ensures
        0 <= k <= s.len(),
        forall|i: int| 0 <= i < k ==> kenar_mi(#[trigger] s[i], egik),
        k == s.len() || !kenar_mi(s[k], egik),
    decreases s.len(),
{
    if s.len() > 0 && kenar_mi(s[0], egik) {
        let t = s.drop_first();
        let j = bastan_sinir(t, egik);
        assert forall|i: int| 0 <= i < j + 1 implies kenar_mi(#[trigger] s[i], egik) by {
            if i > 0 {
                assert(s[i] == t[i - 1]);
            }
        }
        if j < t.len() {
            assert(s[j + 1] == t[j]);
        }
        j + 1
    } else {
        0
    }
}

proof fn sondan_sinir(s: Seq<char>, egik: bool) -> (k: int)
    ensures
        0 <= k <= s.len(),
        forall|i: int| k <= i < s.len() ==> kenar_mi(#[trigger] s[i], egik),
        k == 0 || !kenar_mi(s[k - 1], egik),
    decreases s.len(),
{
    if s.len() > 0 && kenar_mi(s.last(), egik) {
        let t = s.drop_last();
        let j = sondan_sinir(t, egik);
        assert forall|i: int| j <= i < s.len() implies kenar_mi(#[trigger] s[i], egik) by {
            if i < t.len() {
                assert(s[i] == t[i]);
            }
        }
        if j > 0 {
            assert(s[j - 1] == t[j - 1]);
        }
        j
    } else {
        s.len() as int
    }
}

/// `str::trim` removes exactly the leading and trailing white space: what is
/// left is the stretch of the input between them, neither cut shorter nor
/// longer.
pub proof fn kirpma_tanimi(s: Seq<char>)
    ensures
        kirpma_sonucu(s, kirpilmis(s)),
{
    let a = bastan_sinir(s, false);
    lemma_bastan_at(s, false, a);
    let t = s.skip(a);
    let c = sondan_sinir(t, false);
    lemma_sondan_at(t, false, c);
    let b = a + c;
    assert(kirpilmis(s) =~= s.subrange(a, b));
    assert forall|k: int| 0 <= k < a implies bosluk_mu(#[trigger] s[k]) by {
        assert(kenar_mi(s[k], false));
    }
    assert forall|k: int| b <= k < s.len() implies bosluk_mu(#[trigger] s[k]) by {
        assert(s[k] == t[k - a]);
        assert(kenar_mi(t[k - a], false));
    }
    if a < b {
        assert(s[a] == t[0]);
        assert(s[b - 1] == t[c - 1]);
        assert(!kenar_mi(s[a], false));
        assert(!kenar_mi(t[c - 1], false));
    }
    assert(0 <= a <= b <= s.len() && kirpilmis(s) == s.subrange(a, b) && (forall|k: int|
        0 <= k < a ==> bosluk_mu(#[trigger] s[k])) && (forall|k: int|
        b <= k < s.len() ==> bosluk_mu(#[trigger] s[k])) && (a < b ==> !bosluk_mu(s[a])
        && !bosluk_mu(s[b - 1])));
}

/// A string has one trimmed form: two results of removing the leading and
/// trailing white space are the same.
pub proof fn kirpma_tek(s: Seq<char>, t1: Seq<char>, t2: Seq<char>)
    requires
        kirpma_sonucu(s, t1),
        kirpma_sonucu(s, t2),
    ensures
        t1 == t2,
{
    let (a1, b1) = choose|a: int, b: int|
        0 <= a <= b <= s.len() && t1 == #[trigger] s.subrange(a, b) && (forall|k: int|
            0 <= k < a ==> bosluk_mu(#[trigger] s[k])) && (forall|k: int|
            b <= k < s.len() ==> bosluk_mu(#[trigger] s[k])) && (a < b ==> !bosluk_mu(s[a])
            && !bosluk_mu(s[b - 1]));
    let (a2, b2) = choose|a: int, b: int|
        0 <= a <= b <= s.len() && t2 == #[trigger] s.subrange(a, b) && (forall|k: int|
            0 <= k < a ==> bosluk_mu(#[trigger] s[k])) && (forall|k: int|
            b <= k < s.len() ==> bosluk_mu(#[trigger] s[k])) && (a < b ==> !bosluk_mu(s[a])
            && !bosluk_mu(s[b - 1]));
    if a1 < b1 && a2 < b2 {
        if a1 < a2 {
            assert(bosluk_mu(s[a1]));
        }
        if a2 < a1 {
            assert(bosluk_mu(s[a2]));
        }
        if b1 < b2 {
            assert(bosluk_mu(s[b2 - 1]));
        }
        if b2 < b1 {
            assert(bosluk_mu(s[b1 - 1]));
        }
        assert(a1 == a2 && b1 == b2);
    } else if a1 < b1 {
        if a1 < a2 {
            assert(bosluk_mu(s[a1]));
        } else {
            assert(bosluk_mu(s[a1]));
        }
    } else if a2 < b2 {
        if a2 < a1 {
            assert(bosluk_mu(s[a2]));
        } else {
            assert(bosluk_mu(s[a2]));
        }
    } else {
        assert(t1 =~= t2);
    }
}

/// The view of an optional string.
pub open spec fn secenek(o: Option<String>) -> Option<Seq<char>> {
    match o {
        Some(s) => Some(s@),
        None => None,
    }
}

} // verus!
