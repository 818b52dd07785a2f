//! JSON values as the library reads them.
//!
//! `serde_json` parses; the library holds the result in its own type,
//! [`Json`], built one level at a time from what the parser reports of a text.
//! Each level reads the source text of its elements, so every number is read
//! from its source exactly once.
use vstd::prelude::*;
use serde_json::value::RawValue;
use serde_json::Value;
use std::collections::BTreeMap;

verus! {

/// A JSON value. A number is kept as the text that `serde_json`'s `Number`
/// prints for the value it reads from the number's source text.
pub enum Json {
    Bos,
    Mantiksal(bool),
    Sayi(String),
    Metin(String),
    Dizi(Vec<Json>),
    Nesne(Vec<(String, Json)>),
}

/// One level of a parsed JSON text: scalars as they are, and each element or
/// member of an array or object as its source text.
pub enum JsonKabuk {
    Bos,
    Mantiksal(bool),
    Sayi(String),
    Metin(String),
    Dizi(Vec<String>),
    Nesne(Vec<(String, String)>),
}

/// The view of a [`JsonKabuk`].
pub enum JsonKabukV {
    Bos,
    Mantiksal(bool),
    Sayi(Seq<char>),
    Metin(Seq<char>),
    Dizi(Seq<Seq<char>>),
    Nesne(Seq<(Seq<char>, Seq<char>)>),
}

impl View for JsonKabuk {
    type V = JsonKabukV;

    open spec fn view(&self) -> JsonKabukV {
        match self {
            JsonKabuk::Bos => JsonKabukV::Bos,
            JsonKabuk::Mantiksal(b) => JsonKabukV::Mantiksal(*b),
            JsonKabuk::Sayi(s) => JsonKabukV::Sayi(s@),
            JsonKabuk::Metin(s) => JsonKabukV::Metin(s@),
            JsonKabuk::Dizi(v) => JsonKabukV::Dizi(v@.map_values(|s: String| s@)),
            JsonKabuk::Nesne(v) => JsonKabukV::Nesne(
                v@.map_values(|p: (String, String)| (p.0@, p.1@)),
            ),
        }
    }
}

/// What `serde_json::from_str::<serde_json::Value>` makes of a text, one level
/// deep; `None` where it reports an error.
pub uninterp spec fn json_kabugu(metin: Seq<char>) -> Option<JsonKabukV>;

/// Calls `serde_json::from_str::<serde_json::Value>` on `metin`, and for an
/// array or an object parses `metin` again as a list (or a `BTreeMap`) of
/// `RawValue`s to read the source text of each element or member. The
/// contract claims only that the result is a function of the text: `None`
/// for an error, else the top-level value, a number as `Number`'s `Display`
/// prints it.
#[verifier::external_body]
fn json_kabuk_ayristir(metin: &str) -> (res: Option<JsonKabuk>)
    ensures
        match res {
            Some(k) => json_kabugu(metin@) == Some(k@),
            None => json_kabugu(metin@) is None,
        },
{
    Some(match serde_json::from_str::<Value>(metin).ok()? {
        Value::Null => JsonKabuk::Bos,
        Value::Bool(b) => JsonKabuk::Mantiksal(b),
        Value::Number(n) => JsonKabuk::Sayi(n.to_string()),
        Value::String(s) => JsonKabuk::Metin(s),
        Value::Array(_) => JsonKabuk::Dizi(serde_json::from_str::<Vec<Box<RawValue>>>(metin).ok()?.iter().map(|x| x.get().to_string()).collect()),
        Value::Object(_) => JsonKabuk::Nesne(serde_json::from_str::<BTreeMap<String, Box<RawValue>>>(metin).ok()?.into_iter().map(|(k, x)| (k, x.get().to_string())).collect()),
    })
}

/// The nesting bound of `serde_json`'s parser: deeper texts are refused, so a
/// tree built with this much depth is never cut.
pub const JSON_DERINLIK: usize = 128;

/// `j` is the tree of `metin`, descending at most `d` levels below the top:
/// an element whose text does not parse, or that lies deeper, stands as `Bos`.
pub open spec fn json_agaci_mi(j: Json, metin: Seq<char>, d: nat) -> bool
    decreases d, 1int,
{
    match json_kabugu(metin) {
        None => false,
        Some(k) => kabuk_agaci_mi(j, k, d),
    }
}

/// `j` is the tree of the parsed level `k`, descending at most `d` levels
/// below it: an element whose text does not parse, or that lies deeper,
/// stands as `Bos`.
pub open spec fn kabuk_agaci_mi(j: Json, k: JsonKabukV, d: nat) -> bool
    decreases d, 0int,
{
    match k {
        JsonKabukV::Bos => j is Bos,
        JsonKabukV::Mantiksal(b) => j == Json::Mantiksal(b),
        JsonKabukV::Sayi(s) => j matches Json::Sayi(t) && t@ == s,
        JsonKabukV::Metin(s) => j matches Json::Metin(t) && t@ == s,
        JsonKabukV::Dizi(cs) => j matches Json::Dizi(js) && js@.len() == cs.len() && forall|i: int|
            0 <= i < cs.len() ==> if d == 0 || json_kabugu(cs[i]) is None {
                #[trigger] js@[i] is Bos
            } else {
                json_agaci_mi(js@[i], cs[i], (d - 1) as nat)
            },
        JsonKabukV::Nesne(ps) => j matches Json::Nesne(js) && js@.len() == ps.len() && forall|
            i: int,
        |
            0 <= i < ps.len() ==> (#[trigger] js@[i]).0@ == ps[i].0 && if d == 0 || json_kabugu(
                ps[i].1,
            ) is None {
                js@[i].1 is Bos
            } else {
                json_agaci_mi(js@[i].1, ps[i].1, (d - 1) as nat)
            },
    }
}

fn cocuk_agaci(metin: &String, d: usize) -> (j: Json)
    ensures
        if d == 0 || json_kabugu(metin@) is None {
            j is Bos
        } else {
            json_agaci_mi(j, metin@, (d - 1) as nat)
        },
    decreases d, 0int,
{
    if d == 0 {
        Json::Bos
    } else {
        match json_agaci(metin.as_str(), d - 1) {
            Some(j) => j,
            None => Json::Bos,
        }
    }
}

/// Parses `metin` into a [`Json`] tree, `d` levels deep below the top.
/// `None` exactly when the text itself does not parse.
pub fn json_agaci(metin: &str, d: usize) -> (res: Option<Json>)
    ensures
        res is Some <==> json_kabugu(metin@) is Some,
        res matches Some(j) ==> json_agaci_mi(j, metin@, d as nat),
    decreases d, 2int,
{
    match json_kabuk_ayristir(metin) {
        None => None,
        Some(k) => Some(kabuktan_agac(k, d)),
    }
}

/// The tree of a parsed level `k`, `d` levels deep below it: scalars as
/// they are, and each element or member parsed from its text in turn.
pub fn kabuktan_agac(k: JsonKabuk, d: usize) -> (j: Json)
    ensures
        kabuk_agaci_mi(j, k@, d as nat),
    decreases d, 1int,
{
    match k {
        JsonKabuk::Bos => Json::Bos,
        JsonKabuk::Mantiksal(b) => Json::Mantiksal(b),
        JsonKabuk::Sayi(s) => Json::Sayi(s),
        JsonKabuk::Metin(s) => Json::Metin(s),
        JsonKabuk::Dizi(cs) => {
            let mut js: Vec<Json> = Vec::new();
            let mut i: usize = 0;
            while i < cs.len()
                invariant
                    i <= cs.len(),
                    js@.len() == i,
                    forall|m: int|
                        0 <= m < i ==> if d == 0 || json_kabugu(cs@[m]@) is None {
                            #[trigger] js@[m] is Bos
                        } else {
                            json_agaci_mi(js@[m], cs@[m]@, (d - 1) as nat)
                        },
                decreases cs.len() - i,
            {
                let x = cocuk_agaci(&cs[i], d);
                js.push(x);
                i = i + 1;
            }
            Json::Dizi(js)
        },
        JsonKabuk::Nesne(ps) => {
            let mut js: Vec<(String, Json)> = Vec::new();
            let mut i: usize = 0;
            while i < ps.len()
                invariant
                    i <= ps.len(),
                    js@.len() == i,
                    forall|m: int|
                        0 <= m < i ==> (#[trigger] js@[m]).0@ == ps@[m].0@ && if d == 0
                            || json_kabugu(ps@[m].1@) is None {
                            js@[m].1 is Bos
                        } else {
                            json_agaci_mi(js@[m].1, ps@[m].1@, (d - 1) as nat)
                        },
                decreases ps.len() - i,
            {
                let x = cocuk_agaci(&ps[i].1, d);
                js.push((ps[i].0.clone(), x));
                i = i + 1;
            }
            Json::Nesne(js)
        },
    }
}

} // verus!
