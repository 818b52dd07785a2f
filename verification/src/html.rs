//! What the library reads of an HTML page, through `scraper`.
use vstd::prelude::*;

use crate::metin::{gorunumler, secenek};
use scraper::{Html, Selector};

verus! {

/// An element chosen by a CSS selector: the values of the attributes asked
/// for (in the order asked), its descendant text nodes in document order,
/// and its inner HTML.
pub struct Oge {
    pub nitelikler: Vec<Option<String>>,
    pub metin: Vec<String>,
    pub ic_html: String,
}

/// The view of an [`Oge`].
pub struct OgeV {
    pub nitelikler: Seq<Option<Seq<char>>>,
    pub metin: Seq<Seq<char>>,
    pub ic_html: Seq<char>,
}

impl View for Oge {
    type V = OgeV;

    open spec fn view(&self) -> OgeV {
        OgeV {
            nitelikler: self.nitelikler@.map_values(|o: Option<String>| secenek(o)),
            metin: gorunumler(self.metin@),
            ic_html: self.ic_html@,
        }
    }
}

/// The views of a list of elements.
pub open spec fn oge_gorunumleri(v: Seq<Oge>) -> Seq<OgeV> {
    v.map_values(|o: Oge| o@)
}

/// The elements that `secici` selects in the document `html`, in document
/// order, each with the attributes `nitelikler`; `None` when `secici` is not
/// a valid selector.
pub uninterp spec fn html_secimi(
    html: Seq<char>,
    secici: Seq<char>,
    nitelikler: Seq<Seq<char>>,
) -> Option<Seq<OgeV>>;

/// For each element that `dis` selects in the document `html`, the text
/// nodes of each of its descendants that `ic` selects; `None` when either
/// selector is not valid.
pub uninterp spec fn html_hucre_secimi(html: Seq<char>, dis: Seq<char>, ic: Seq<char>) -> Option<
    Seq<Seq<Seq<Seq<char>>>>,
>;

/// Calls `Selector::parse` on `secici`, `Html::parse_document`
/// on `html`, then `Html::select`, and for each element `attr`, `text` and
/// `inner_html`. The contract claims that the result is a function of the
/// three arguments, `None` exactly when the selector does not parse, and that
/// each element carries one attribute entry per name asked for.
#[verifier::external_body]
pub(crate) fn ogeleri_sec(html: &str, secici: &str, nitelikler: &Vec<String>) -> (res: Option<
    Vec<Oge>,
>)
    ensures
        match res {
            Some(v) => html_secimi(html@, secici@, gorunumler(nitelikler@)) == Some(
                oge_gorunumleri(v@),
            ),
            None => html_secimi(html@, secici@, gorunumler(nitelikler@)) is None,
        },
        res matches Some(v) ==> forall|i: int|
            0 <= i < v@.len() ==> (#[trigger] v@[i]).nitelikler@.len() == nitelikler@.len(),
{
    let sec = Selector::parse(secici).ok()?;
    let belge = Html::parse_document(html);
    Some(belge.select(&sec).map(|e| Oge {
        nitelikler: nitelikler.iter().map(|n| e.value().attr(n).map(|d| d.to_string())).collect(),
        metin: e.text().map(|t| t.to_string()).collect(),
        ic_html: e.inner_html(),
    }).collect())
}

/// Calls `Selector::parse` on both selectors, `Html::parse_document`
/// on `html`, `Html::select` with `dis`, `ElementRef::select` with `ic` on each
/// element found, and `ElementRef::text` on each inner element. The contract
/// claims only that the result is a function of the three arguments, `None`
/// exactly when a selector does not parse.
#[verifier::external_body]
pub(crate) fn hucreleri_sec(html: &str, dis: &str, ic: &str) -> (res: Option<
    Vec<Vec<Vec<String>>>,
>)
    ensures
        match res {
            Some(v) => html_hucre_secimi(html@, dis@, ic@) == Some(v.deep_view()),
            None => html_hucre_secimi(html@, dis@, ic@) is None,
        },
{
    let dis_sec = Selector::parse(dis).ok()?;
    let ic_sec = Selector::parse(ic).ok()?;
    let belge = Html::parse_document(html);
    Some(belge.select(&dis_sec).map(|e| e.select(&ic_sec).map(|h| h.text().map(|t| t.to_string()).collect()).collect()).collect())
}

} // verus!
