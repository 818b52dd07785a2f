//! The commands, and the decisions of the menu, of the command loop and of
//! its tab completion.
use vstd::prelude::*;

use crate::metin::{ayracla, ayracla_birlestir, gorunumler, kirp, kirpilmis, metin_esit};
use vstd::utf8::{encode_utf8, is_char_boundary};

verus! {

/// A command of the program.
pub enum Commands {
    /// Show the usage of the commands.
    Help,
    /// Show the exchange rates.
    Doviz,
    /// Show the fuel prices of a city (asked for when not given).
    Benzin { sehir: Option<String>, ilce: Option<String>, sirala: bool },
    /// Search for a product.
    Ara { urun_adi: Vec<String> },
    /// Inspect the metadata and JSON-LD of a page.
    Incele { url: String },
}

// ── Search ──────────────────────────────────────────────────────────────────

/// The words of the product name joined with spaces.
pub open spec fn sorgu(urun_adi: Seq<Seq<char>>) -> Seq<char> {
    ayracla(urun_adi, " "@)
}

/// The query of a product search: the words joined with single spaces;
/// nothing when that is blank.
pub fn ara_sorgusu(urun_adi: &Vec<String>) -> (r: Option<String>)
    ensures
        match r {
            Some(q) => q@ == sorgu(gorunumler(urun_adi@)) && kirpilmis(q@).len() > 0,
            None => kirpilmis(sorgu(gorunumler(urun_adi@))).len() == 0,
        },
{
    let q = ayracla_birlestir(urun_adi, " ");
    let t = kirp(q.as_str());
    if t.as_str().is_empty() {
        None
    } else {
        Some(q)
    }
}

/// The title of the search results of `sorgu`.
pub fn arama_basligi(sorgu: &str) -> (r: String)
    ensures
        r@ == "Ürün Arama: "@ + sorgu@,
{
    let mut r = "Ürün Arama: ".to_owned();
    r.append(sorgu);
    r
}

// ── Menu ────────────────────────────────────────────────────────────────────

/// The entries of the menu, in order.
pub open spec fn menu() -> Seq<Seq<char>> {
    seq![
        "0. Yardım"@,
        "1. Döviz Kurları"@,
        "2. Benzin Fiyatları"@,
        "3. Ürün Ara"@,
        "4. Site İncele"@,
        "5. REPL Komut Modu"@,
        "6. Çıkış"@,
    ]
}

/// The entries of the menu.
pub fn menu_ogeleri() -> (r: Vec<String>)
    ensures
        gorunumler(r@) == menu(),
{
    let r = vec![
        "0. Yardım".to_owned(),
        "1. Döviz Kurları".to_owned(),
        "2. Benzin Fiyatları".to_owned(),
        "3. Ürün Ara".to_owned(),
        "4. Site İncele".to_owned(),
        "5. REPL Komut Modu".to_owned(),
        "6. Çıkış".to_owned(),
    ];
    assert(gorunumler(r@) =~= menu());
    r
}

/// What the menu does next.
pub enum MenuEylemi {
    /// Run a command.
    Calistir(Commands),
    /// Ask for a product name, then search for it.
    UrunSor,
    /// Ask for an address, then inspect it.
    UrlSor,
    /// Enter the command loop.
    Repl,
    /// Leave the menu.
    Cikis,
    /// Show the menu again.
    Hicbiri,
}

/// The action for a menu answer; `None` stands for a prompt that failed.
pub open spec fn menu_eylemi_spec(secim: Option<Seq<char>>) -> MenuEylemi {
    match secim {
        None => MenuEylemi::Cikis,
        Some(s) => if s == menu()[0] {
            MenuEylemi::Calistir(Commands::Help)
        } else if s == menu()[1] {
            MenuEylemi::Calistir(Commands::Doviz)
        } else if s == menu()[2] {
            MenuEylemi::Calistir(Commands::Benzin { sehir: None, ilce: None, sirala: true })
        } else if s == menu()[3] {
            MenuEylemi::UrunSor
        } else if s == menu()[4] {
            MenuEylemi::UrlSor
        } else if s == menu()[5] {
            MenuEylemi::Repl
        } else if s == menu()[6] {
            MenuEylemi::Cikis
        } else {
            MenuEylemi::Hicbiri
        },
    }
}

/// Decides what the menu does with the entry chosen, or with a failed
/// prompt (`None`): the fuel prices entry asks for a city and sorts.
pub fn menu_eylemi(secim: Option<&str>) -> (r: MenuEylemi)
    ensures
        r == menu_eylemi_spec(
            match secim {
                Some(s) => Some(s@),
                None => None,
            },
        ),
{
    match secim {
        None => MenuEylemi::Cikis,
        Some(s) => if metin_esit(s, "0. Yardım") {
            MenuEylemi::Calistir(Commands::Help)
        } else if metin_esit(s, "1. Döviz Kurları") {
            MenuEylemi::Calistir(Commands::Doviz)
        } else if metin_esit(s, "2. Benzin Fiyatları") {
            MenuEylemi::Calistir(Commands::Benzin { sehir: None, ilce: None, sirala: true })
        } else if metin_esit(s, "3. Ürün Ara") {
            MenuEylemi::UrunSor
        } else if metin_esit(s, "4. Site İncele") {
            MenuEylemi::UrlSor
        } else if metin_esit(s, "5. REPL Komut Modu") {
            MenuEylemi::Repl
        } else if metin_esit(s, "6. Çıkış") {
            MenuEylemi::Cikis
        } else {
            MenuEylemi::Hicbiri
        },
    }
}

/// The search for a product named `urun`, as the menu starts it.
pub fn urun_arama_komutu(urun: String) -> (r: Commands)
    ensures
        r matches Commands::Ara { urun_adi } && gorunumler(urun_adi@) == seq![urun@],
{
    let urun_adi = vec![urun];
    assert(gorunumler(urun_adi@) =~= seq![urun_adi@[0]@]);
    Commands::Ara { urun_adi }
}

// ── Command loop ────────────────────────────────────────────────────────────

/// What `shlex::split` makes of a line; `None` where it reports an error.
pub uninterp spec fn shlex_bolumu(satir: Seq<char>) -> Option<Seq<Seq<char>>>;

/// Calls `shlex::split` on `satir`. The contract claims only that the
/// result is a function of the line: `None` for an unclosed quote or a
/// trailing escape, else the words.
#[verifier::external_body]
fn shlex_bol(satir: &str) -> (r: Option<Vec<String>>)
    ensures
        match r {
            Some(v) => shlex_bolumu(satir@) == Some(gorunumler(v@)),
            None => shlex_bolumu(satir@) is None,
        },
{
    shlex::split(satir)
}

/// The command line of the words `kelimeler`: the program's name, then the words.
pub fn komut_satiri(kelimeler: Vec<String>) -> (argv: Vec<String>)
    ensures
        gorunumler(argv@) == seq![program_adi()] + gorunumler(kelimeler@),
{
    let mut argv = vec!["fiyat-arama".to_owned()];
    let ghost ilk = argv@;
    let ghost kv = kelimeler@;
    let mut kelimeler = kelimeler;
    argv.append(&mut kelimeler);
    assert(argv@ =~= ilk + kv);
    assert(gorunumler(argv@) =~= seq![program_adi()] + gorunumler(kv));
    argv
}

/// What the command loop receives from the line editor.
pub enum ReplOlayi {
    /// A line was read.
    Satir(String),
    /// The user interrupted (Ctrl-C).
    Kesildi,
    /// The input ended (Ctrl-D).
    Bitti,
    /// The editor failed.
    Hata,
}

/// What the command loop does next.
pub enum ReplEylemi {
    /// Read the next line.
    Devam,
    /// Leave the loop.
    Cik,
    /// Report the editor's failure and leave the loop.
    HataIleCik,
    /// Record `gecmis` in the history and leave the loop.
    Cikis { gecmis: String },
    /// Record `gecmis` in the history and report that it could not be split.
    Ayristirilamadi { gecmis: String },
    /// Record `gecmis` in the history and parse `argv` as a command line.
    Calistir { gecmis: String, argv: Vec<String> },
}

/// The program's name, the first word of every command line.
pub open spec fn program_adi() -> Seq<char> {
    "fiyat-arama"@
}

/// What the command loop does with `olay`: a line is trimmed; a blank one
/// is skipped; any other is kept in the history; `exit` and `quit` leave;
/// the rest is split like a shell line and, behind the program's name,
/// parsed as a command line.
pub open spec fn repl_adimi_mi(olay: ReplOlayi, r: ReplEylemi) -> bool {
    match olay {
        ReplOlayi::Satir(s) => {
            let g = kirpilmis(s@);
            if g.len() == 0 {
                r is Devam
            } else if g == "exit"@ || g == "quit"@ {
                r matches ReplEylemi::Cikis { gecmis } && gecmis@ == g
            } else {
                match shlex_bolumu(g) {
                    None => r matches ReplEylemi::Ayristirilamadi { gecmis } && gecmis@ == g,
                    Some(kelimeler) => r matches ReplEylemi::Calistir { gecmis, argv } && gecmis@
                        == g && gorunumler(argv@) == seq![program_adi()] + kelimeler,
                }
            }
        },
        ReplOlayi::Kesildi => r is Cik,
        ReplOlayi::Bitti => r is Cik,
        ReplOlayi::Hata => r is HataIleCik,
    }
}

/// Decides what the command loop does with what the line editor gave.
pub fn repl_adimi(olay: ReplOlayi) -> (r: ReplEylemi)
    ensures
        repl_adimi_mi(olay, r),
{
    match olay {
        ReplOlayi::Satir(s) => {
            let g = kirp(s.as_str());
            if g.as_str().is_empty() {
                ReplEylemi::Devam
            } else if metin_esit(g.as_str(), "exit") || metin_esit(g.as_str(), "quit") {
                ReplEylemi::Cikis { gecmis: g }
            } else {
                match shlex_bol(g.as_str()) {
                    None => ReplEylemi::Ayristirilamadi { gecmis: g },
                    Some(kelimeler) => {
                        let argv = komut_satiri(kelimeler);
                        ReplEylemi::Calistir { gecmis: g, argv }
                    },
                }
            }
        },
        ReplOlayi::Kesildi => ReplEylemi::Cik,
        ReplOlayi::Bitti => ReplEylemi::Cik,
        ReplOlayi::Hata => ReplEylemi::HataIleCik,
    }
}

// ── Tab completion ──────────────────────────────────────────────────────────

/// The words that tab completion offers, in order.
pub fn repl_komutlari() -> (r: Vec<String>)
    ensures
        gorunumler(r@) == seq![
            "help"@,
            "doviz"@,
            "benzin"@,
            "ara"@,
            "incele"@,
            "exit"@,
            "quit"@,
        ],
{
    let r = vec![
        "help".to_owned(),
        "doviz".to_owned(),
        "benzin".to_owned(),
        "ara".to_owned(),
        "incele".to_owned(),
        "exit".to_owned(),
        "quit".to_owned(),
    ];
    assert(gorunumler(r@) =~= seq![
        "help"@,
        "doviz"@,
        "benzin"@,
        "ara"@,
        "incele"@,
        "exit"@,
        "quit"@,
    ]);
    r
}

/// The byte offset where the word ending at `konum` begins: just after the
/// last space before `konum`, or 0.
pub open spec fn kelime_basi(b: Seq<u8>, konum: int) -> int
    decreases konum,
{
    if konum <= 0 {
        0
    } else if b[konum - 1] == 32 {
        konum
    } else {
        kelime_basi(b, konum - 1)
    }
}

/// The commands whose UTF-8 bytes begin with `kelime`, in order.
pub open spec fn eslesenler(komutlar: Seq<Seq<char>>, kelime: Seq<u8>) -> Seq<Seq<char>>
    decreases komutlar.len(),
{
    if komutlar.len() == 0 {
        Seq::empty()
    } else {
        let onceki = eslesenler(komutlar.drop_last(), kelime);
        if kelime.is_prefix_of(encode_utf8(komutlar.last())) {
            onceki.push(komutlar.last())
        } else {
            onceki
        }
    }
}

fn bayt_onek_mi(on: &[u8], s: &[u8]) -> (r: bool)
    ensures
        r == on@.is_prefix_of(s@),
{
    if on.len() > s.len() {
        return false;
    }
    let mut i: usize = 0;
    while i < on.len()
        invariant
            i <= on@.len() <= s@.len(),
            forall|j: int| 0 <= j < i ==> on@[j] == s@[j],
        decreases on.len() - i,
    {
        if on[i] != s[i] {
            assert(on@ != s@.subrange(0, on@.len() as int));
            return false;
        }
        i = i + 1;
    }
    assert(on@ =~= s@.subrange(0, on@.len() as int));
    true
}

/// The completed word starts just after the last space before the cursor:
/// it holds no space, and a space (or the line's start) comes before it.
pub proof fn kelime_basi_son_bosluktan(b: Seq<u8>, konum: int)
    requires
        0 <= konum <= b.len(),
    ensures
        0 <= kelime_basi(b, konum) <= konum,
        kelime_basi(b, konum) == 0 || b[kelime_basi(b, konum) - 1] == 32,
        forall|i: int| kelime_basi(b, konum) <= i < konum ==> b[i] != 32,
    decreases konum,
{
    if konum > 0 && b[konum - 1] != 32 {
        kelime_basi_son_bosluktan(b, konum - 1);
    }
}

/// Tab completion of the line `satir` with the cursor at byte `konum`: the
/// word before the cursor starts after the last space before it, and the
/// candidates are the commands that begin with that word, in order.
pub fn tamamla(komutlar: &Vec<String>, satir: &str, konum: usize) -> (r: (usize, Vec<String>))
    requires
        konum <= encode_utf8(satir@).len(),
        is_char_boundary(encode_utf8(satir@), konum as int),
    ensures
        r.0 == kelime_basi(encode_utf8(satir@), konum as int),
        gorunumler(r.1@) == eslesenler(
            gorunumler(komutlar@),
            encode_utf8(satir@).subrange(r.0 as int, konum as int),
        ),
{
    let b = satir.as_bytes();
    let mut bas: usize = konum;
    while bas > 0 && b[bas - 1] != 32
        invariant
            bas <= konum <= b@.len(),
            b@ == encode_utf8(satir@),
            kelime_basi(b@, konum as int) == kelime_basi(b@, bas as int),
        decreases bas,
    {
        bas = bas - 1;
    }
    let mut kelime: Vec<u8> = Vec::new();
    let mut j: usize = bas;
    while j < konum
        invariant
            bas <= j <= konum <= b@.len(),
            kelime@ == b@.subrange(bas as int, j as int),
        decreases konum - j,
    {
        kelime.push(b[j]);
        j = j + 1;
        assert(kelime@ =~= b@.subrange(bas as int, j as int));
    }
    let ghost k = gorunumler(komutlar@);
    let mut adaylar: Vec<String> = Vec::new();
    let mut i: usize = 0;
    while i < komutlar.len()
        invariant
            i <= komutlar@.len(),
            k == gorunumler(komutlar@),
            gorunumler(adaylar@) == eslesenler(k.take(i as int), kelime@),
        decreases komutlar.len() - i,
    {
        proof {
            assert(k.take(i + 1).drop_last() =~= k.take(i as int));
            assert(k.take(i + 1).last() == komutlar@[i as int]@);
        }
        let kb = komutlar[i].as_str().as_bytes();
        if bayt_onek_mi(kelime.as_slice(), kb) {
            adaylar.push(komutlar[i].clone());
            assert(gorunumler(adaylar@) =~= eslesenler(k.take(i as int), kelime@).push(
                komutlar@[i as int]@,
            ));
        }
        i = i + 1;
    }
    assert(k.take(i as int) =~= k);
    (bas, adaylar)
}

/// The completion candidates are exactly the commands whose UTF-8 bytes
/// begin with the word before the cursor, in the order of the commands:
/// none is left out and none is added.
pub proof fn eslesenler_tam(komutlar: Seq<Seq<char>>, kelime: Seq<u8>)
    ensures
        eslesenler(komutlar, kelime) == komutlar.filter(
            |c: Seq<char>| kelime.is_prefix_of(encode_utf8(c)),
        ),
    decreases komutlar.len(),
{
    reveal(Seq::filter);
    if komutlar.len() > 0 {
        eslesenler_tam(komutlar.drop_last(), kelime);
    }
}

/// Every completion candidate begins with the word before the cursor, and
/// is one of the commands.
pub proof fn eslesenler_onekli(komutlar: Seq<Seq<char>>, kelime: Seq<u8>)
    ensures
        forall|i: int|
            0 <= i < eslesenler(komutlar, kelime).len() ==> kelime.is_prefix_of(
                encode_utf8(#[trigger] eslesenler(komutlar, kelime)[i]),
            ) && komutlar.contains(eslesenler(komutlar, kelime)[i]),
        eslesenler(komutlar, kelime).len() <= komutlar.len(),
    decreases komutlar.len(),
{
    if komutlar.len() > 0 {
        let t = komutlar.drop_last();
        eslesenler_onekli(t, kelime);
        let e = eslesenler(komutlar, kelime);
        let o = eslesenler(t, kelime);
        assert forall|i: int| 0 <= i < e.len() implies kelime.is_prefix_of(
            encode_utf8(#[trigger] e[i]),
        ) && komutlar.contains(e[i]) by {
            if i < o.len() {
                assert(e[i] == o[i]);
                assert(t.contains(o[i]));
                let w = choose|w: int| 0 <= w < t.len() && t[w] == o[i];
                assert(komutlar[w] == t[w]);
            } else {
                assert(e[i] == komutlar.last());
                assert(komutlar[komutlar.len() - 1] == komutlar.last());
            }
        }
    }
}

} // verus!
